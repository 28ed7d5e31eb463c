use tuimail::email::{Email, EmailAddress, EmailAttachment};
use tuimail::outgoing::{mailbox_for_sending, outgoing_message};

fn addr(name: Option<&str>, address: &str) -> EmailAddress {
    EmailAddress { name: name.map(|n| n.to_string()), address: address.to_string() }
}

fn attachment(name: &str, ct: &str) -> EmailAttachment {
    EmailAttachment { filename: name.to_string(), content_type: ct.to_string(), data: vec![7, 8] }
}

#[test]
fn plain_message_without_sender_uses_account() {
    let mut e = Email::new();
    e.subject = "Hi".to_string();
    e.to = vec![addr(None, "a@x.org")];
    e.cc = vec![addr(Some("C"), "c@x.org")];
    let m = outgoing_message(&e, "Me", "me@x.org");
    assert_eq!(m.from.name.as_deref(), Some("Me"));
    assert_eq!(m.from.address, "me@x.org");
    assert_eq!(m.to[0].address, "a@x.org");
    assert_eq!(m.cc[0].name.as_deref(), Some("C"));
    assert!(m.bcc.is_empty());
    assert_eq!(m.subject, "Hi");
    assert_eq!(m.body, "");
    assert!(!m.mixed);
    assert!(m.attachments.is_empty());
}

#[test]
fn attachments_make_a_mixed_message_with_accepted_types() {
    let mut e = Email::new();
    e.from = vec![addr(Some("Alice"), "alice@x.org")];
    e.body_text = Some("text".to_string());
    e.attachments = vec![attachment("a.txt", "text/plain"), attachment("b.bin", "not a type")];
    let m = outgoing_message(&e, "Me", "me@x.org");
    assert_eq!(m.from.address, "alice@x.org");
    assert_eq!(m.body, "text");
    assert!(m.mixed);
    assert_eq!(m.attachments[0].content_type, "text/plain");
    assert_eq!(m.attachments[1].content_type, "application/octet-stream");
    assert_eq!(m.attachments[1].filename, "b.bin");
    assert_eq!(m.attachments[1].data, vec![7, 8]);
}

#[test]
fn unusable_addresses_are_sent_as_unknown() {
    assert_eq!(
        mailbox_for_sending(&addr(Some("N"), "user@example.org")),
        (Some("N".to_string()), "user".to_string(), "example.org".to_string())
    );
    assert_eq!(mailbox_for_sending(&addr(None, "no-at-sign")), (None, "unknown".to_string(), "example.com".to_string()));
    assert_eq!(mailbox_for_sending(&addr(None, "bad user@x.org")), (None, "unknown".to_string(), "example.com".to_string()));
}
