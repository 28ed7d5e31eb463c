use tuimail::credentials::{CredentialError, CredentialManager, CredentialRequest, FallbackCredentialManager, SecureCredentials, StorageReply};

fn test_fallback() -> FallbackCredentialManager {
    FallbackCredentialManager::with_dir("/tmp/tuimail_cred_test".to_string())
}

#[test]
fn test_xor_encrypt_decrypt_roundtrip() {
    let mgr = test_fallback();
    let key = mgr.derive_key("test@example.com");
    let plaintext = b"my_secret_password";
    let encrypted = mgr.xor_encrypt(plaintext, &key);
    assert_ne!(&encrypted, plaintext);
    let decrypted = mgr.xor_encrypt(&encrypted, &key);
    assert_eq!(&decrypted, plaintext);
}

#[test]
fn test_derive_key_deterministic() {
    let mgr = test_fallback();
    let key1 = mgr.derive_key("user@example.com");
    let key2 = mgr.derive_key("user@example.com");
    assert_eq!(key1, key2);
    assert_eq!(key1.len(), 32);
}

#[test]
fn test_derive_key_different_accounts() {
    let mgr = test_fallback();
    let key1 = mgr.derive_key("alice@example.com");
    let key2 = mgr.derive_key("bob@example.com");
    assert_ne!(key1, key2);
}

#[test]
fn derived_key_bytes() {
    let key = test_fallback().derive_key("ab");
    assert_eq!(&key[..4], &[b'a', b'b' ^ 1, b'a' ^ 2, b'b' ^ 3]);
    assert_eq!(key[31], b'b' ^ 31);
}

#[test]
fn keyring_requests_use_service_names() {
    let creds = SecureCredentials::new(true, None).unwrap();
    match creds.store_password("me@x.org", "imap", "pw") {
        CredentialRequest::KeyringSet { service, account, password } => {
            assert_eq!(service, "email-client-imap");
            assert_eq!(account, "me@x.org");
            assert_eq!(password, "pw");
        }
        other => panic!("unexpected request {:?}", other),
    }
    assert!(matches!(creds.get_password("me@x.org", "smtp"), CredentialRequest::KeyringGet { ref service, .. } if service == "email-client-smtp"));
    assert_eq!(CredentialManager::new().unwrap().service_name("imap"), "email-client-imap");
}

#[test]
fn fallback_requests_and_replies() {
    let creds = SecureCredentials::new(false, Some("/cfg".to_string())).unwrap();
    let stored = match creds.store_password("u@h.io", "imap", "hunter2") {
        CredentialRequest::WriteFile { path, contents } => {
            assert_eq!(path, "/cfg/u@h.io_imap.enc");
            assert_ne!(contents, b"hunter2".to_vec());
            contents
        }
        other => panic!("unexpected request {:?}", other),
    };
    match creds.get_password("u@h.io", "imap") {
        CredentialRequest::ReadFile { path } => assert_eq!(path, "/cfg/u@h.io_imap.enc"),
        other => panic!("unexpected request {:?}", other),
    }
    match creds.delete_password("u@h.io", "imap") {
        CredentialRequest::RemoveFile { path } => assert_eq!(path, "/cfg/u@h.io_imap.enc"),
        other => panic!("unexpected request {:?}", other),
    }
    let back = creds.password_from_reply("u@h.io", StorageReply::Contents(stored)).unwrap();
    assert_eq!(back, Some("hunter2".to_string()));
    assert_eq!(creds.password_from_reply("u@h.io", StorageReply::Missing).unwrap(), None);
    let bad = creds.password_from_reply("u@h.io", StorageReply::Contents(vec![0xff ^ b'u']));
    assert!(matches!(bad, Err(CredentialError::Decode)));
    assert!(matches!(creds.password_from_reply("u@h.io", StorageReply::Failed("boom".to_string())), Err(CredentialError::Storage(ref t)) if t == "boom"));
    assert!(matches!(SecureCredentials::new(false, None), Err(CredentialError::NoConfigDir)));
    assert!(SecureCredentials::completion_from_reply(StorageReply::Missing).is_ok());
    assert!(SecureCredentials::completion_from_reply(StorageReply::Failed("x".to_string())).is_err());
}

/// Performs storage requests on files kept in memory, as the program does on
/// disk.
fn perform_in_memory(files: &mut std::collections::HashMap<String, Vec<u8>>, request: CredentialRequest) -> StorageReply {
    match request {
        CredentialRequest::WriteFile { path, contents } => {
            files.insert(path, contents);
            StorageReply::Done
        }
        CredentialRequest::ReadFile { path } => match files.get(&path) {
            Some(c) => StorageReply::Contents(c.clone()),
            None => StorageReply::Missing,
        },
        CredentialRequest::RemoveFile { path } => match files.remove(&path) {
            Some(_) => StorageReply::Done,
            None => StorageReply::Missing,
        },
        other => panic!("not a file request: {:?}", other),
    }
}

fn fallback_store() -> (SecureCredentials, std::collections::HashMap<String, Vec<u8>>) {
    (SecureCredentials::new(false, Some("/tmp/tuimail_cred_test".to_string())).unwrap(), std::collections::HashMap::new())
}

#[test]
fn test_store_and_retrieve_password() {
    let (creds, mut files) = fallback_store();
    let r = perform_in_memory(&mut files, creds.store_password("testuser@cred.com", "imap", "hunter2"));
    SecureCredentials::completion_from_reply(r).unwrap();
    let r = perform_in_memory(&mut files, creds.get_password("testuser@cred.com", "imap"));
    assert_eq!(creds.password_from_reply("testuser@cred.com", r).unwrap(), Some("hunter2".to_string()));
    let r = perform_in_memory(&mut files, creds.delete_password("testuser@cred.com", "imap"));
    SecureCredentials::completion_from_reply(r).unwrap();
}

#[test]
fn test_get_nonexistent_password() {
    let (creds, mut files) = fallback_store();
    let r = perform_in_memory(&mut files, creds.get_password("nobody@cred.com", "smtp"));
    assert_eq!(creds.password_from_reply("nobody@cred.com", r).unwrap(), None);
}

#[test]
fn test_delete_password() {
    let (creds, mut files) = fallback_store();
    let r = perform_in_memory(&mut files, creds.store_password("deltest@cred.com", "imap", "pw"));
    SecureCredentials::completion_from_reply(r).unwrap();
    let r = perform_in_memory(&mut files, creds.delete_password("deltest@cred.com", "imap"));
    SecureCredentials::completion_from_reply(r).unwrap();
    let r = perform_in_memory(&mut files, creds.get_password("deltest@cred.com", "imap"));
    assert_eq!(creds.password_from_reply("deltest@cred.com", r).unwrap(), None);
}

#[test]
fn test_delete_nonexistent_password() {
    let (creds, mut files) = fallback_store();
    let r = perform_in_memory(&mut files, creds.delete_password("ghost@cred.com", "imap"));
    SecureCredentials::completion_from_reply(r).unwrap();
}

#[test]
fn password_kinds_are_stored_apart() {
    let keyring = SecureCredentials::new(true, None).unwrap();
    match (keyring.store_password("a@b.c", "smtp", "pw"), keyring.get_password("a@b.c", "imap")) {
        (CredentialRequest::KeyringSet { service: s1, .. }, CredentialRequest::KeyringGet { service: s2, .. }) => {
            assert_eq!(s1, "email-client-smtp");
            assert_eq!(s2, "email-client-imap");
        }
        _ => panic!("keyring requests expected"),
    }
    let files = SecureCredentials::new(false, Some("/tmp/creds".to_string())).unwrap();
    match (files.store_password("a@b.c", "smtp", "pw"), files.get_password("a@b.c", "imap")) {
        (CredentialRequest::WriteFile { path: w, .. }, CredentialRequest::ReadFile { path: r }) => {
            assert_eq!(w, "/tmp/creds/a@b.c_smtp.enc");
            assert_eq!(r, "/tmp/creds/a@b.c_imap.enc");
        }
        _ => panic!("file requests expected"),
    }
}
