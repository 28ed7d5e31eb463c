//! Accounts and user-interface settings, and the choice of the current
//! account.
use vstd::prelude::*;
use crate::text::{owned, lowercase, to_lowercase, str_eq};
use crate::credentials::{CredentialError, CredentialRequest, SecureCredentials, StorageReply};
use vstd::string::StringExecFns;

verus! {

/// How the IMAP connection is secured.
#[derive(Debug, Clone, Copy, PartialEq, Eq, Structural)]
pub enum ImapSecurity {
    /// No transport security.
    Plain,
    StartTLS,
    SSL,
}

/// How the SMTP connection is secured.
#[derive(Debug, Clone, Copy, PartialEq, Eq, Structural)]
pub enum SmtpSecurity {
    /// No transport security.
    Plain,
    StartTLS,
    SSL,
}

/// The transport security that a setting names, compared without regard to
/// case: `none`, `starttls` or `ssl`; `None` for any other setting.
pub open spec fn security_named(setting: Seq<char>) -> Option<u8> {
    let l = lowercase(setting);
    if l == "none"@ {
        Some(0)
    } else if l == "starttls"@ {
        Some(1)
    } else if l == "ssl"@ {
        Some(2)
    } else {
        None
    }
}

fn security_index(setting: &str) -> (r: Option<u8>)
    ensures
        match security_named(setting@) {
            Some(k) => r == Some(k),
            None => r is None,
        },
{
    let l = to_lowercase(setting);
    proof {
        reveal_strlit("none");
        reveal_strlit("starttls");
        reveal_strlit("ssl");
    }
    if str_eq(l.as_str(), "none") {
        Some(0)
    } else if str_eq(l.as_str(), "starttls") {
        Some(1)
    } else if str_eq(l.as_str(), "ssl") {
        Some(2)
    } else {
        None
    }
}

impl ImapSecurity {
    /// The IMAP security that a command-line setting names (`None`,
    /// `StartTLS` or `SSL`, in any case); `None` when it names none of them.
    pub fn from_setting(setting: &str) -> (r: Option<ImapSecurity>)
        ensures
            match security_named(setting@) {
                Some(0) => r == Some(ImapSecurity::Plain),
                Some(1) => r == Some(ImapSecurity::StartTLS),
                Some(_) => r == Some(ImapSecurity::SSL),
                None => r is None,
            },
    {
        match security_index(setting) {
            Some(0) => Some(ImapSecurity::Plain),
            Some(1) => Some(ImapSecurity::StartTLS),
            Some(_) => Some(ImapSecurity::SSL),
            None => None,
        }
    }
}

impl SmtpSecurity {
    /// The SMTP security that a command-line setting names (`None`,
    /// `StartTLS` or `SSL`, in any case); `None` when it names none of them.
    pub fn from_setting(setting: &str) -> (r: Option<SmtpSecurity>)
        ensures
            match security_named(setting@) {
                Some(0) => r == Some(SmtpSecurity::Plain),
                Some(1) => r == Some(SmtpSecurity::StartTLS),
                Some(_) => r == Some(SmtpSecurity::SSL),
                None => r is None,
            },
    {
        match security_index(setting) {
            Some(0) => Some(SmtpSecurity::Plain),
            Some(1) => Some(SmtpSecurity::StartTLS),
            Some(_) => Some(SmtpSecurity::SSL),
            None => None,
        }
    }
}

/// An e-mail account: identity, IMAP and SMTP servers, and signature.
/// Passwords are kept apart, in secure storage.
#[derive(Debug, Clone)]
pub struct EmailAccount {
    pub name: String,
    pub email: String,
    pub imap_server: String,
    pub imap_port: u16,
    pub imap_security: ImapSecurity,
    pub imap_username: String,
    pub smtp_server: String,
    pub smtp_port: u16,
    pub smtp_security: SmtpSecurity,
    pub smtp_username: String,
    pub signature: Option<String>,
}

/// Whether `a` is the example account at `example.com`: IMAP over SSL on
/// port 993, SMTP with STARTTLS on port 587, the usual signature.
pub open spec fn is_example_account(a: EmailAccount) -> bool {
    &&& a.name@ == "Default Account"@
    &&& a.email@ == "user@example.com"@
    &&& a.imap_server@ == "imap.example.com"@
    &&& a.imap_port == 993
    &&& a.imap_security == ImapSecurity::SSL
    &&& a.imap_username@ == "user@example.com"@
    &&& a.smtp_server@ == "smtp.example.com"@
    &&& a.smtp_port == 587
    &&& a.smtp_security == SmtpSecurity::StartTLS
    &&& a.smtp_username@ == "user@example.com"@
    &&& a.signature matches Some(s) && s@ == "Sent from Email Client"@
}

impl Default for EmailAccount {
    /// An example account at `example.com`: IMAP over SSL on port 993, SMTP
    /// with STARTTLS on port 587.
    fn default() -> (r: Self)
        ensures
            is_example_account(r),
    {
        EmailAccount {
            name: owned("Default Account"),
            email: owned("user@example.com"),
            imap_server: owned("imap.example.com"),
            imap_port: 993,
            imap_security: ImapSecurity::SSL,
            imap_username: owned("user@example.com"),
            smtp_server: owned("smtp.example.com"),
            smtp_port: 587,
            smtp_security: SmtpSecurity::StartTLS,
            smtp_username: owned("user@example.com"),
            signature: Some(owned("Sent from Email Client")),
        }
    }
}

impl EmailAccount {
    /// A copy of the account.
    pub fn copy(&self) -> (r: EmailAccount)
        ensures
            r == *self,
    {
        EmailAccount {
            name: self.name.clone(),
            email: self.email.clone(),
            imap_server: self.imap_server.clone(),
            imap_port: self.imap_port,
            imap_security: self.imap_security,
            imap_username: self.imap_username.clone(),
            smtp_server: self.smtp_server.clone(),
            smtp_port: self.smtp_port,
            smtp_security: self.smtp_security,
            smtp_username: self.smtp_username.clone(),
            signature: match &self.signature {
                Some(s) => Some(s.clone()),
                None => None,
            },
        }
    }

    /// The password a lookup of this account's password of a kind gave, or
    /// an error naming the account when there is none.
    fn password_of(&self, credentials: &SecureCredentials, reply: StorageReply, label: &str) -> (r: Result<String, CredentialError>)
        requires
            reply is Contents ==> self.email@.len() > 0,
        ensures
            match crate::credentials::password_in_reply(self.email@, reply) {
                Ok(Some(p)) => r matches Ok(q) && q@ == p,
                Ok(None) => r matches Err(CredentialError::NotFound(t)) && t@ == label@ + " password not found for "@ + self.email@,
                Err(e) => r matches Err(f) && f == e,
            },
    {
        match credentials.password_from_reply(self.email.as_str(), reply) {
            Ok(Some(p)) => Ok(p),
            Ok(None) => {
                let t = owned(label).concat(" password not found for ").concat(self.email.as_str());
                Err(CredentialError::NotFound(t))
            },
            Err(e) => Err(e),
        }
    }

    /// The lookup that the IMAP password is read with: the account's
    /// e-mail address and the kind `imap`.
    pub fn imap_password_request(&self, credentials: &SecureCredentials) -> (r: CredentialRequest)
        ensures
            credentials.is_get_request(r, self.email@, "imap"@),
    {
        credentials.get_password(self.email.as_str(), "imap")
    }

    /// The lookup that the SMTP password is read with: the account's
    /// e-mail address and the kind `smtp`.
    pub fn smtp_password_request(&self, credentials: &SecureCredentials) -> (r: CredentialRequest)
        ensures
            credentials.is_get_request(r, self.email@, "smtp"@),
    {
        credentials.get_password(self.email.as_str(), "smtp")
    }

    /// The IMAP password, from the reply to `imap_password_request`; an
    /// error when there is none.
    pub fn get_imap_password(&self, credentials: &SecureCredentials, reply: StorageReply) -> (r: Result<String, CredentialError>)
        requires
            reply is Contents ==> self.email@.len() > 0,
        ensures
            match crate::credentials::password_in_reply(self.email@, reply) {
                Ok(Some(p)) => r matches Ok(q) && q@ == p,
                Ok(None) => r matches Err(CredentialError::NotFound(t)) && t@ == "IMAP password not found for "@ + self.email@,
                Err(e) => r matches Err(f) && f == e,
            },
    {
        let r = self.password_of(credentials, reply, "IMAP");
        proof {
            reveal_strlit("IMAP");
            reveal_strlit(" password not found for ");
            reveal_strlit("IMAP password not found for ");
            assert("IMAP"@ + " password not found for "@ =~= "IMAP password not found for "@);
        }
        r
    }

    /// The SMTP password, from the reply to `smtp_password_request`; an
    /// error when there is none.
    pub fn get_smtp_password(&self, credentials: &SecureCredentials, reply: StorageReply) -> (r: Result<String, CredentialError>)
        requires
            reply is Contents ==> self.email@.len() > 0,
        ensures
            match crate::credentials::password_in_reply(self.email@, reply) {
                Ok(Some(p)) => r matches Ok(q) && q@ == p,
                Ok(None) => r matches Err(CredentialError::NotFound(t)) && t@ == "SMTP password not found for "@ + self.email@,
                Err(e) => r matches Err(f) && f == e,
            },
    {
        let r = self.password_of(credentials, reply, "SMTP");
        proof {
            reveal_strlit("SMTP");
            reveal_strlit(" password not found for ");
            reveal_strlit("SMTP password not found for ");
            assert("SMTP"@ + " password not found for "@ =~= "SMTP password not found for "@);
        }
        r
    }

    /// The storage operation that stores the IMAP password.
    pub fn store_imap_password(&self, credentials: &SecureCredentials, password: &str) -> (r: CredentialRequest)
        requires
            credentials is Fallback ==> self.email@.len() > 0,
        ensures
            credentials.is_store_request(r, self.email@, "imap"@, password@),
    {
        credentials.store_password(self.email.as_str(), "imap", password)
    }

    /// The storage operation that stores the SMTP password.
    pub fn store_smtp_password(&self, credentials: &SecureCredentials, password: &str) -> (r: CredentialRequest)
        requires
            credentials is Fallback ==> self.email@.len() > 0,
        ensures
            credentials.is_store_request(r, self.email@, "smtp"@, password@),
    {
        credentials.store_password(self.email.as_str(), "smtp", password)
    }
}

/// User-interface settings.
#[derive(Debug, Clone)]
pub struct UIConfig {
    pub theme: String,
    pub show_headers: bool,
    pub refresh_interval: u64,
    pub preview_pane: bool,
}

impl Default for UIConfig {
    /// The default theme, headers hidden, refresh every 300 seconds, preview
    /// pane shown.
    fn default() -> (r: Self)
        ensures
            r.theme@ == "default"@,
            !r.show_headers,
            r.refresh_interval == 300,
            r.preview_pane,
    {
        UIConfig { theme: owned("default"), show_headers: false, refresh_interval: 300, preview_pane: true }
    }
}

/// The configuration: accounts, the index of the default account, and the
/// user-interface settings.
#[derive(Debug, Clone)]
pub struct Config {
    pub accounts: Vec<EmailAccount>,
    pub default_account: usize,
    pub ui: UIConfig,
}

impl Default for Config {
    /// No account, default index 0, default user-interface settings.
    fn default() -> (r: Self)
        ensures
            r.accounts@.len() == 0,
            r.default_account == 0,
            r.ui.theme@ == "default"@,
            !r.ui.show_headers,
            r.ui.refresh_interval == 300,
            r.ui.preview_pane,
    {
        Config { accounts: Vec::new(), default_account: 0, ui: UIConfig::default() }
    }
}

impl Config {
    /// The current account: the default account when its index is valid, the
    /// first account otherwise, and the example account when there is none.
    pub fn get_current_account_safe(&self) -> (r: EmailAccount)
        ensures
            self.accounts@.len() == 0 ==> is_example_account(r),
            self.accounts@.len() > 0 && self.default_account >= self.accounts@.len() ==> r == self.accounts@[0],
            self.default_account < self.accounts@.len() ==> r == self.accounts@[self.default_account as int],
    {
        if self.accounts.len() == 0 {
            EmailAccount::default()
        } else if self.default_account >= self.accounts.len() {
            self.accounts[0].copy()
        } else {
            self.accounts[self.default_account].copy()
        }
    }
}

} // verus!
