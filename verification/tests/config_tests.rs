use tuimail::config::{Config, EmailAccount, ImapSecurity, SmtpSecurity, UIConfig};
use tuimail::credentials::{CredentialError, SecureCredentials, StorageReply};

#[test]
fn default_account_values() {
    let a = EmailAccount::default();
    assert_eq!(a.name, "Default Account");
    assert_eq!(a.email, "user@example.com");
    assert_eq!(a.imap_server, "imap.example.com");
    assert_eq!(a.imap_port, 993);
    assert_eq!(a.imap_security, ImapSecurity::SSL);
    assert_eq!(a.smtp_port, 587);
    assert_eq!(a.smtp_security, SmtpSecurity::StartTLS);
    assert_eq!(a.signature.as_deref(), Some("Sent from Email Client"));
    let ui = UIConfig::default();
    assert_eq!(ui.theme, "default");
    assert!(!ui.show_headers);
    assert_eq!(ui.refresh_interval, 300);
    assert!(ui.preview_pane);
}

fn account(email: &str) -> EmailAccount {
    EmailAccount { email: email.to_string(), ..EmailAccount::default() }
}

#[test]
fn current_account_choice() {
    let mut c = Config::default();
    assert!(c.accounts.is_empty());
    assert_eq!(c.get_current_account_safe().email, "user@example.com");
    c.accounts = vec![account("a@x"), account("b@x")];
    c.default_account = 1;
    assert_eq!(c.get_current_account_safe().email, "b@x");
    c.default_account = 5;
    assert_eq!(c.get_current_account_safe().email, "a@x");
}

#[test]
fn passwords_from_replies() {
    let a = account("me@x.org");
    let creds = SecureCredentials::new(true, None).unwrap();
    assert_eq!(a.get_imap_password(&creds, StorageReply::Secret("s3".to_string())).unwrap(), "s3");
    match a.get_imap_password(&creds, StorageReply::Missing) {
        Err(CredentialError::NotFound(t)) => assert_eq!(t, "IMAP password not found for me@x.org"),
        other => panic!("unexpected {:?}", other),
    }
    match a.get_smtp_password(&creds, StorageReply::Missing) {
        Err(CredentialError::NotFound(t)) => assert_eq!(t, "SMTP password not found for me@x.org"),
        other => panic!("unexpected {:?}", other),
    }
    assert!(matches!(a.store_smtp_password(&creds, "p"), tuimail::credentials::CredentialRequest::KeyringSet { ref service, .. } if service == "email-client-smtp"));
}

#[test]
fn test_security_settings_ignore_case() {
    assert_eq!(ImapSecurity::from_setting("SSL"), Some(ImapSecurity::SSL));
    assert_eq!(ImapSecurity::from_setting("starttls"), Some(ImapSecurity::StartTLS));
    assert_eq!(ImapSecurity::from_setting("None"), Some(ImapSecurity::Plain));
    assert_eq!(ImapSecurity::from_setting("tls"), None);
    assert_eq!(SmtpSecurity::from_setting("StartTLS"), Some(SmtpSecurity::StartTLS));
    assert_eq!(SmtpSecurity::from_setting("nOnE"), Some(SmtpSecurity::Plain));
    assert_eq!(SmtpSecurity::from_setting(""), None);
}
