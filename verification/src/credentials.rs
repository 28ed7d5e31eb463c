//! Password storage: the system keyring, or files encrypted with a key
//! derived from the account name. The library decides what is stored where
//! and in which form; the caller performs the storage operation it asks for
//! and hands back the reply.
use vstd::prelude::*;
use vstd::string::StringExecFns;
use crate::text::{owned, str_width, lemma_text_width_bounds};

verus! {

broadcast use vstd::utf8::encode_utf8_decode_utf8, vstd::utf8::encode_utf8_valid_utf8;

/// Why a credential operation failed.
#[derive(Debug, Clone)]
pub enum CredentialError {
    /// The keyring or the file system reported an error, described by the text.
    Storage(String),
    /// The stored bytes are not UTF-8 text.
    Decode,
    /// No directory is available for the fallback files.
    NoConfigDir,
    /// The account has no password of the requested kind; the text says which.
    NotFound(String),
}

/// A storage operation the library asks its caller to perform.
#[derive(Debug, Clone)]
pub enum CredentialRequest {
    /// Store `password` in the system keyring under `service` and `account`.
    KeyringSet { service: String, account: String, password: String },
    /// Read the password stored in the keyring under `service` and `account`.
    KeyringGet { service: String, account: String },
    /// Delete the keyring entry under `service` and `account`.
    KeyringDelete { service: String, account: String },
    /// Write `contents` to the file at `path`, readable by its owner only.
    WriteFile { path: String, contents: Vec<u8> },
    /// Read the file at `path`.
    ReadFile { path: String },
    /// Delete the file at `path` if it exists.
    RemoveFile { path: String },
}

/// What a storage operation gave back.
#[derive(Debug, Clone)]
pub enum StorageReply {
    /// The operation succeeded and returns nothing.
    Done,
    /// The keyring returned this password.
    Secret(String),
    /// The file held these bytes.
    Contents(Vec<u8>),
    /// There was no such keyring entry or file.
    Missing,
    /// The operation failed; the text describes the error.
    Failed(String),
}

/// Credentials kept in the system keyring.
#[derive(Debug, Clone)]
pub struct CredentialManager {
    app_name: String,
}

impl CredentialManager {
    /// The application name that prefixes keyring services.
    pub closed spec fn app(&self) -> Seq<char> {
        self.app_name@
    }

    /// A keyring credential manager for the application `email-client`.
    pub fn new() -> (r: Result<CredentialManager, CredentialError>)
        ensures
            r is Ok,
            r->Ok_0.app() == "email-client"@,
    {
        Ok(CredentialManager { app_name: owned("email-client") })
    }

    /// The keyring service of a kind of password: the application name, a
    /// hyphen, and the kind.
    pub fn service_name(&self, password_type: &str) -> (r: String)
        ensures
            r@ == self.app() + "-"@ + password_type@,
    {
        let s = self.app_name.clone().concat("-");
        s.concat(password_type)
    }
}

/// The key derived from an account name: 32 bytes, the account's bytes
/// repeated, each combined by exclusive or with its position.
pub open spec fn derived_key(account: Seq<u8>) -> Seq<u8>
    recommends
        account.len() > 0,
{
    Seq::new(32, |i: int| account[i % (account.len() as int)] ^ (i as u8))
}

/// The bytes of `data` combined by exclusive or with the key, repeated.
pub open spec fn xor_bytes(data: Seq<u8>, key: Seq<u8>) -> Seq<u8>
    recommends
        key.len() > 0,
{
    Seq::new(data.len(), |i: int| data[i] ^ key[i % (key.len() as int)])
}

/// Combining twice with the same key gives the data back.
pub proof fn law_xor_roundtrip(data: Seq<u8>, key: Seq<u8>)
    requires
        key.len() > 0,
    ensures
        xor_bytes(xor_bytes(data, key), key) == data,
{
    let once = xor_bytes(data, key);
    assert forall|i: int| 0 <= i < data.len() implies #[trigger] xor_bytes(once, key)[i] == data[i] by {
        let d = data[i];
        let k = key[i % (key.len() as int)];
        assert((d ^ k) ^ k == d) by (bit_vector);
    }
    assert(xor_bytes(once, key) =~= data);
}

/// Credentials kept in encrypted files in a directory.
#[derive(Debug, Clone)]
pub struct FallbackCredentialManager {
    config_dir: String,
}

impl FallbackCredentialManager {
    /// The directory of the credential files.
    pub closed spec fn dir(&self) -> Seq<char> {
        self.config_dir@
    }

    /// A manager that keeps its files in `config_dir`.
    pub fn with_dir(config_dir: String) -> (r: FallbackCredentialManager)
        ensures
            r.dir() == config_dir@,
    {
        FallbackCredentialManager { config_dir }
    }

    /// The file of an account's password of a kind:
    /// `<dir>/<account>_<kind>.enc`.
    pub fn credential_path(&self, account_id: &str, password_type: &str) -> (r: String)
        ensures
            r@ == self.dir() + "/"@ + account_id@ + "_"@ + password_type@ + ".enc"@,
    {
        self.config_dir.clone().concat("/").concat(account_id).concat("_").concat(password_type).concat(
            ".enc",
        )
    }

    /// The key derived from an account name.
    pub fn derive_key(&self, account_id: &str) -> (r: Vec<u8>)
        requires
            account_id@.len() > 0,
        ensures
            r@ == derived_key(vstd::utf8::encode_utf8(account_id@)),
    {
        let account_bytes = account_id.as_bytes();
        proof {
            crate::text::lemma_text_width_is_utf8_len(account_id@);
            lemma_text_width_bounds(account_id@);
        }
        let n = account_bytes.len();
        let mut key: Vec<u8> = Vec::new();
        let mut i: usize = 0;
        while i < 32
            invariant
                n == account_bytes@.len(),
                n > 0,
                account_bytes@ == vstd::utf8::encode_utf8(account_id@),
                0 <= i <= 32,
                key@ == derived_key(account_bytes@).take(i as int),
            decreases 32 - i,
        {
            let b = account_bytes[i % n] ^ (i as u8);
            proof {
                assert(derived_key(account_bytes@).take(i + 1) =~= derived_key(account_bytes@).take(i as int).push(b));
            }
            key.push(b);
            i = i + 1;
        }
        proof {
            assert(derived_key(account_bytes@).take(32) =~= derived_key(account_bytes@));
        }
        key
    }

    /// The bytes of `data` combined by exclusive or with the key, repeated.
    pub fn xor_encrypt(&self, data: &[u8], key: &[u8]) -> (r: Vec<u8>)
        requires
            key@.len() > 0,
        ensures
            r@ == xor_bytes(data@, key@),
    {
        let mut out: Vec<u8> = Vec::new();
        let mut i: usize = 0;
        while i < data.len()
            invariant
                key@.len() > 0,
                0 <= i <= data@.len(),
                out@ == xor_bytes(data@, key@).take(i as int),
            decreases data@.len() - i,
        {
            let b = data[i] ^ key[i % key.len()];
            proof {
                assert(xor_bytes(data@, key@).take(i + 1) =~= xor_bytes(data@, key@).take(i as int).push(b));
            }
            out.push(b);
            i = i + 1;
        }
        proof {
            assert(xor_bytes(data@, key@).take(i as int) =~= xor_bytes(data@, key@));
        }
        out
    }

    /// The file contents that store a password: its UTF-8 bytes encrypted
    /// with the account's key.
    pub fn encrypt_password(&self, account_id: &str, password: &str) -> (r: Vec<u8>)
        requires
            account_id@.len() > 0,
        ensures
            r@ == xor_bytes(
                vstd::utf8::encode_utf8(password@),
                derived_key(vstd::utf8::encode_utf8(account_id@)),
            ),
    {
        let key = self.derive_key(account_id);
        self.xor_encrypt(password.as_bytes(), key.as_slice())
    }

    /// The password stored in a file's contents: decrypted with the account's
    /// key and read as UTF-8; an error when the bytes are not UTF-8.
    pub fn decrypt_password(&self, account_id: &str, contents: &[u8]) -> (r: Result<String, CredentialError>)
        requires
            account_id@.len() > 0,
        ensures
            ({
                let plain = xor_bytes(contents@, derived_key(vstd::utf8::encode_utf8(account_id@)));
                match r {
                    Ok(p) => vstd::utf8::valid_utf8(plain) && p@ == vstd::utf8::decode_utf8(plain),
                    Err(e) => !vstd::utf8::valid_utf8(plain) && e is Decode,
                }
            }),
    {
        let key = self.derive_key(account_id);
        let plain = self.xor_encrypt(contents, key.as_slice());
        match string_from_utf8(plain) {
            Some(p) => Ok(p),
            None => Err(CredentialError::Decode),
        }
    }
}

/// `String::from_utf8`: the text the bytes encode, or nothing when they are
/// not valid UTF-8.
#[verifier::external_body]
fn string_from_utf8(bytes: Vec<u8>) -> (r: Option<String>)
    ensures
        match r {
            Some(s) => vstd::utf8::valid_utf8(bytes@) && s@ == vstd::utf8::decode_utf8(bytes@),
            None => !vstd::utf8::valid_utf8(bytes@),
        },
{
    String::from_utf8(bytes).ok()
}

/// A password encrypted for an account and decrypted again is the password.
pub proof fn law_fallback_roundtrip(account: Seq<char>, password: Seq<char>)
    requires
        account.len() > 0,
    ensures
        ({
            let key = derived_key(vstd::utf8::encode_utf8(account));
            let stored = xor_bytes(vstd::utf8::encode_utf8(password), key);
            let plain = xor_bytes(stored, key);
            vstd::utf8::valid_utf8(plain) && vstd::utf8::decode_utf8(plain) == password
        }),
{
    let key = derived_key(vstd::utf8::encode_utf8(account));
    assert(key.len() == 32);
    law_xor_roundtrip(vstd::utf8::encode_utf8(password), key);
}

/// The password a storage reply gives for an account: a keyring secret as
/// it is, file contents decrypted with the account's key and read as UTF-8
/// (an error when they are not UTF-8), nothing for a missing entry or file,
/// and the error of a failed read.
pub open spec fn password_in_reply(account_id: Seq<char>, reply: StorageReply) -> Result<Option<Seq<char>>, CredentialError> {
    match reply {
        StorageReply::Secret(p) => Ok(Some(p@)),
        StorageReply::Contents(b) => {
            let plain = xor_bytes(b@, derived_key(vstd::utf8::encode_utf8(account_id)));
            if vstd::utf8::valid_utf8(plain) {
                Ok(Some(vstd::utf8::decode_utf8(plain)))
            } else {
                Err(CredentialError::Decode)
            }
        },
        StorageReply::Missing => Ok(None),
        StorageReply::Done => Ok(None),
        StorageReply::Failed(e) => Err(CredentialError::Storage(e)),
    }
}

/// Where passwords are kept: the system keyring, or encrypted files.
#[derive(Debug, Clone)]
pub enum SecureCredentials {
    SystemKeyring(CredentialManager),
    Fallback(FallbackCredentialManager),
}

impl SecureCredentials {
    /// The file of an account's password of a kind, in the fallback directory.
    pub open spec fn file_of(dir: Seq<char>, account_id: Seq<char>, password_type: Seq<char>) -> Seq<char> {
        dir + "/"@ + account_id + "_"@ + password_type + ".enc"@
    }

    /// Whether `r` stores the password: a keyring entry under the kind's
    /// service, or the encrypted password written to the account's file.
    pub open spec fn is_store_request(&self, r: CredentialRequest, account_id: Seq<char>, password_type: Seq<char>, password: Seq<char>) -> bool {
        match self {
            SecureCredentials::SystemKeyring(m) => r matches CredentialRequest::KeyringSet { service, account, password: p }
                && service@ == m.app() + "-"@ + password_type && account@ == account_id && p@ == password,
            SecureCredentials::Fallback(f) => r matches CredentialRequest::WriteFile { path, contents }
                && path@ == Self::file_of(f.dir(), account_id, password_type)
                && contents@ == xor_bytes(
                vstd::utf8::encode_utf8(password),
                derived_key(vstd::utf8::encode_utf8(account_id)),
            ),
        }
    }

    /// Whether `r` reads the password.
    pub open spec fn is_get_request(&self, r: CredentialRequest, account_id: Seq<char>, password_type: Seq<char>) -> bool {
        match self {
            SecureCredentials::SystemKeyring(m) => r matches CredentialRequest::KeyringGet { service, account }
                && service@ == m.app() + "-"@ + password_type && account@ == account_id,
            SecureCredentials::Fallback(f) => r matches CredentialRequest::ReadFile { path }
                && path@ == Self::file_of(f.dir(), account_id, password_type),
        }
    }

    /// Whether `r` deletes the password.
    pub open spec fn is_delete_request(&self, r: CredentialRequest, account_id: Seq<char>, password_type: Seq<char>) -> bool {
        match self {
            SecureCredentials::SystemKeyring(m) => r matches CredentialRequest::KeyringDelete { service, account }
                && service@ == m.app() + "-"@ + password_type && account@ == account_id,
            SecureCredentials::Fallback(f) => r matches CredentialRequest::RemoveFile { path }
                && path@ == Self::file_of(f.dir(), account_id, password_type),
        }
    }

    /// The system keyring when it is available; otherwise encrypted files in
    /// `fallback_dir`, an error when there is no such directory.
    pub fn new(keyring_available: bool, fallback_dir: Option<String>) -> (r: Result<SecureCredentials, CredentialError>)
        ensures
            keyring_available ==> (r matches Ok(SecureCredentials::SystemKeyring(m)) && m.app() == "email-client"@),
            !keyring_available ==> (match fallback_dir {
                Some(d) => r matches Ok(SecureCredentials::Fallback(f)) && f.dir() == d@,
                None => r matches Err(CredentialError::NoConfigDir),
            }),
    {
        if keyring_available {
            match CredentialManager::new() {
                Ok(m) => Ok(SecureCredentials::SystemKeyring(m)),
                Err(e) => Err(e),
            }
        } else {
            match fallback_dir {
                Some(d) => Ok(SecureCredentials::Fallback(FallbackCredentialManager::with_dir(d))),
                None => Err(CredentialError::NoConfigDir),
            }
        }
    }

    /// The storage operation that stores a password: a keyring entry under the
    /// kind's service, or the encrypted password written to the account's
    /// file.
    pub fn store_password(&self, account_id: &str, password_type: &str, password: &str) -> (r: CredentialRequest)
        requires
            self is Fallback ==> account_id@.len() > 0,
        ensures
            self.is_store_request(r, account_id@, password_type@, password@),
    {
        match self {
            SecureCredentials::SystemKeyring(m) => CredentialRequest::KeyringSet {
                service: m.service_name(password_type),
                account: owned(account_id),
                password: owned(password),
            },
            SecureCredentials::Fallback(f) => CredentialRequest::WriteFile {
                path: f.credential_path(account_id, password_type),
                contents: f.encrypt_password(account_id, password),
            },
        }
    }

    /// The storage operation that reads a password.
    pub fn get_password(&self, account_id: &str, password_type: &str) -> (r: CredentialRequest)
        ensures
            self.is_get_request(r, account_id@, password_type@),
    {
        match self {
            SecureCredentials::SystemKeyring(m) => CredentialRequest::KeyringGet {
                service: m.service_name(password_type),
                account: owned(account_id),
            },
            SecureCredentials::Fallback(f) => CredentialRequest::ReadFile {
                path: f.credential_path(account_id, password_type),
            },
        }
    }

    /// The storage operation that deletes a password.
    pub fn delete_password(&self, account_id: &str, password_type: &str) -> (r: CredentialRequest)
        ensures
            self.is_delete_request(r, account_id@, password_type@),
    {
        match self {
            SecureCredentials::SystemKeyring(m) => CredentialRequest::KeyringDelete {
                service: m.service_name(password_type),
                account: owned(account_id),
            },
            SecureCredentials::Fallback(f) => CredentialRequest::RemoveFile {
                path: f.credential_path(account_id, password_type),
            },
        }
    }

    /// The password a read gave back: a keyring secret as it is, file
    /// contents decrypted with the account's key, nothing when the entry or
    /// file is missing, and the error of a failed or undecodable read.
    pub fn password_from_reply(&self, account_id: &str, reply: StorageReply) -> (r: Result<Option<String>, CredentialError>)
        requires
            reply is Contents ==> account_id@.len() > 0,
        ensures
            match password_in_reply(account_id@, reply) {
                Ok(Some(p)) => r matches Ok(Some(q)) && q@ == p,
                Ok(None) => r matches Ok(None),
                Err(e) => r matches Err(f) && f == e,
            },
    {
        match reply {
            StorageReply::Secret(p) => Ok(Some(p)),
            StorageReply::Contents(b) => {
                let f = FallbackCredentialManager { config_dir: String::new() };
                match f.decrypt_password(account_id, b.as_slice()) {
                    Ok(p) => Ok(Some(p)),
                    Err(e) => Err(e),
                }
            },
            StorageReply::Missing => Ok(None),
            StorageReply::Done => Ok(None),
            StorageReply::Failed(e) => Err(CredentialError::Storage(e)),
        }
    }

    /// The outcome of a store or delete: success, a missing entry or file
    /// (nothing to delete), or the error of a failed operation.
    pub fn completion_from_reply(reply: StorageReply) -> (r: Result<(), CredentialError>)
        ensures
            match reply {
                StorageReply::Failed(e) => r matches Err(CredentialError::Storage(t)) && t@ == e@,
                _ => r is Ok,
            },
    {
        match reply {
            StorageReply::Failed(e) => Err(CredentialError::Storage(e)),
            _ => Ok(()),
        }
    }
}

/// What is stored for a password is found again: the request that reads a
/// password addresses the place the storing request writes, and the reply
/// carrying what was written gives the password back.
pub proof fn law_store_then_get_gives_password(
    credentials: SecureCredentials,
    store: CredentialRequest,
    get: CredentialRequest,
    account_id: Seq<char>,
    password_type: Seq<char>,
    password: Seq<char>,
)
    requires
        credentials.is_store_request(store, account_id, password_type, password),
        credentials.is_get_request(get, account_id, password_type),
        credentials is Fallback ==> account_id.len() > 0,
    ensures
        match (store, get) {
            (
                CredentialRequest::WriteFile { path: written, contents },
                CredentialRequest::ReadFile { path: read },
            ) => written@ == read@ && password_in_reply(account_id, StorageReply::Contents(contents)) == Ok::<
                Option<Seq<char>>,
                CredentialError,
            >(Some(password)),
            (
                CredentialRequest::KeyringSet { service: s1, account: a1, password: p },
                CredentialRequest::KeyringGet { service: s2, account: a2 },
            ) => s1@ == s2@ && a1@ == a2@ && password_in_reply(account_id, StorageReply::Secret(p)) == Ok::<
                Option<Seq<char>>,
                CredentialError,
            >(Some(password)),
            _ => false,
        },
{
    if credentials is Fallback {
        law_fallback_roundtrip(account_id, password);
    }
}


proof fn lemma_middle_determined(p: Seq<char>, a: Seq<char>, b: Seq<char>, e: Seq<char>)
    requires
        p + a + e == p + b + e,
    ensures
        a == b,
{
    let x = p + a + e;
    let y = p + b + e;
    assert(x.len() == y.len());
    assert forall|i: int| 0 <= i < a.len() implies a[i] == b[i] by {
        assert(x[p.len() + i] == a[i]);
        assert(y[p.len() + i] == b[i]);
    }
    assert(a =~= b);
}

/// Passwords of different kinds are kept apart: the request storing one
/// kind writes another place than the request reading another kind reads,
/// so storing an SMTP password leaves the IMAP one as it was.
pub proof fn law_password_kinds_are_independent(
    credentials: SecureCredentials,
    store: CredentialRequest,
    get: CredentialRequest,
    account_id: Seq<char>,
    stored_type: Seq<char>,
    read_type: Seq<char>,
    password: Seq<char>,
)
    requires
        credentials.is_store_request(store, account_id, stored_type, password),
        credentials.is_get_request(get, account_id, read_type),
        stored_type != read_type,
    ensures
        match (store, get) {
            (
                CredentialRequest::WriteFile { path: written, contents },
                CredentialRequest::ReadFile { path: read },
            ) => written@ != read@,
            (
                CredentialRequest::KeyringSet { service: s1, account: a1, password: p },
                CredentialRequest::KeyringGet { service: s2, account: a2 },
            ) => s1@ != s2@,
            _ => false,
        },
{
    match credentials {
        SecureCredentials::SystemKeyring(m) => {
            let pre = m.app() + "-"@;
            if let (CredentialRequest::KeyringSet { service: s1, .. }, CredentialRequest::KeyringGet { service: s2, .. }) = (store, get) {
                if s1@ == s2@ {
                    assert(pre + stored_type + Seq::<char>::empty() =~= pre + stored_type);
                    assert(pre + read_type + Seq::<char>::empty() =~= pre + read_type);
                    lemma_middle_determined(pre, stored_type, read_type, Seq::<char>::empty());
                }
            }
        },
        SecureCredentials::Fallback(f) => {
            let pre = f.dir() + "/"@ + account_id + "_"@;
            if let (CredentialRequest::WriteFile { path: w, .. }, CredentialRequest::ReadFile { path: r }) = (store, get) {
                if w@ == r@ {
                    assert(SecureCredentials::file_of(f.dir(), account_id, stored_type) =~= pre + stored_type + ".enc"@);
                    assert(SecureCredentials::file_of(f.dir(), account_id, read_type) =~= pre + read_type + ".enc"@);
                    lemma_middle_determined(pre, stored_type, read_type, ".enc"@);
                }
            }
        },
    }
}

} // verus!
