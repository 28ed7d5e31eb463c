use tuimail::compose::{
    dedup_addresses, forward_email, forward_with_date, prefixed, quote_text, recipients_string, reply_all_to_email,
    reply_all_with_date, reply_to_email, reply_with_date,
};
use tuimail::email::{Email, EmailAddress, EmailAttachment};

fn addr(name: Option<&str>, address: &str) -> EmailAddress {
    EmailAddress { name: name.map(|n| n.to_string()), address: address.to_string() }
}

fn addresses(v: &[EmailAddress]) -> Vec<String> {
    v.iter().map(|a| a.address.clone()).collect()
}

fn original() -> Email {
    let mut e = Email::new();
    e.subject = "Hello".to_string();
    e.from = vec![addr(Some("Alice"), "alice@x.org")];
    e.to = vec![addr(None, "me@x.org"), addr(Some("Carol"), "carol@x.org")];
    e.body_text = Some("Hi\r\nthere\n".to_string());
    e.headers.insert("Message-ID".to_string(), "<m1@x.org>".to_string());
    e.headers.insert("References".to_string(), "<r0@x.org>".to_string());
    e
}

#[test]
fn subject_prefix_is_added_once() {
    assert_eq!(prefixed("Re: ", "Hello"), "Re: Hello");
    assert_eq!(prefixed("Re: ", "Re: Hello"), "Re: Hello");
    assert_eq!(prefixed("Re: ", prefixed("Re: ", "x").as_str()), "Re: x");
    assert_eq!(prefixed("Fwd: ", "Re: x"), "Fwd: Re: x");
}

#[test]
fn quoting_prefixes_each_line() {
    assert_eq!(quote_text("a\r\nb\n\nc"), "> a\n> b\n> \n> c");
    assert_eq!(quote_text("one\n"), "> one");
    assert_eq!(quote_text(""), "");
}

#[test]
fn neighbouring_duplicates_are_dropped() {
    let v = vec![addr(None, "a@x"), addr(Some("A"), "a@x"), addr(None, "b@x"), addr(None, "a@x")];
    assert_eq!(addresses(&dedup_addresses(&v)), vec!["a@x", "b@x", "a@x"]);
    assert_eq!(recipients_string(&v), "a@x, a@x, b@x, a@x");
}

#[test]
fn reply_threads_and_quotes() {
    let r = reply_with_date(&original(), "Me", "me@x.org", "2024-01-02 10:00");
    assert_eq!(r.subject, "Re: Hello");
    assert_eq!(addresses(&r.to), vec!["alice@x.org"]);
    assert!(r.cc.is_empty());
    assert_eq!(r.from.len(), 1);
    assert_eq!(r.from[0].name.as_deref(), Some("Me"));
    assert_eq!(r.from[0].address, "me@x.org");
    assert_eq!(r.headers.get("In-Reply-To").map(|s| s.as_str()), Some("<m1@x.org>"));
    assert_eq!(r.headers.get("References").map(|s| s.as_str()), Some("<r0@x.org> <m1@x.org>"));
    assert_eq!(r.body_text.as_deref(), Some("\n\n\n\nOn 2024-01-02 10:00 Alice wrote:\n> Hi\n> there"));
}

#[test]
fn reply_goes_to_reply_to_address() {
    let mut o = original();
    o.headers.insert("Reply-To".to_string(), "list@x.org".to_string());
    o.body_text = None;
    o.from = Vec::new();
    let r = reply_with_date(&o, "Me", "me@x.org", "d");
    assert_eq!(addresses(&r.to), vec!["list@x.org"]);
    assert_eq!(r.body_text.as_deref(), Some("\n\n\n\n"));
}

#[test]
fn reply_without_message_id_has_no_threading() {
    let mut o = Email::new();
    o.subject = "Re: Old".to_string();
    o.body_text = Some("x".to_string());
    let r = reply_with_date(&o, "Me", "me@x.org", "d");
    assert_eq!(r.subject, "Re: Old");
    assert!(r.headers.get("In-Reply-To").is_none());
    assert!(r.headers.get("References").is_none());
    assert_eq!(r.body_text.as_deref(), Some("\n\n\n\nOn d Unknown wrote:\n> x"));
}

#[test]
fn reply_all_leaves_out_own_address() {
    let mut o = original();
    o.from = vec![addr(None, "bob@x.org")];
    o.to = vec![addr(None, "me@x.org"), addr(None, "carol@x.org"), addr(None, "bob@x.org")];
    o.cc = vec![addr(None, "dave@x.org"), addr(None, "me@x.org"), addr(None, "dave@x.org")];
    let r = reply_all_with_date(&o, "Me", "me@x.org", "d");
    assert_eq!(addresses(&r.to), vec!["bob@x.org", "carol@x.org"]);
    assert_eq!(addresses(&r.cc), vec!["dave@x.org"]);
    assert_eq!(r.subject, "Re: Hello");
}

#[test]
fn forward_carries_header_body_and_attachments() {
    let mut o = original();
    o.cc = vec![addr(Some("Dave"), "dave@x.org")];
    o.attachments = vec![EmailAttachment {
        filename: "a.txt".to_string(),
        content_type: "text/plain".to_string(),
        data: vec![1, 2, 3],
    }];
    let f = forward_with_date(&o, "Me", "me@x.org", "Tue, 02 Jan 2024 10:00:00 +0000");
    assert_eq!(f.subject, "Fwd: Hello");
    assert!(f.to.is_empty());
    assert_eq!(
        f.body_text.as_deref(),
        Some(
            "\n\n\n\n---------- Forwarded message ----------\nFrom: Alice <alice@x.org>\nDate: Tue, 02 Jan 2024 10:00:00 +0000\nSubject: Hello\nTo: me@x.org, Carol <carol@x.org>\nCc: Dave <dave@x.org>\n\nHi\r\nthere\n"
        )
    );
    assert_eq!(f.attachments.len(), 1);
    assert_eq!(f.attachments[0].filename, "a.txt");
    assert_eq!(f.attachments[0].data, vec![1, 2, 3]);
    assert!(f.headers.get("In-Reply-To").is_none());
}

#[test]
fn drafts_use_the_local_date() {
    let mut o = original();
    o.date = 1_700_000_000;
    let r = reply_to_email(&o, "Me", "me@x.org");
    let body = r.body_text.unwrap();
    assert!(body.starts_with("\n\n\n\nOn "));
    assert!(body.ends_with(" Alice wrote:\n> Hi\n> there"));
    assert_eq!(body.len(), "\n\n\n\nOn 2023-11-14 22:13 Alice wrote:\n> Hi\n> there".len());
    o.date = i64::MAX;
    let r = reply_all_to_email(&o, "Me", "me@x.org");
    assert_eq!(r.body_text.as_deref(), Some("\n\n\n\nOn  Alice wrote:\n> Hi\n> there"));
    let f = forward_email(&o, "Me", "me@x.org");
    assert!(f.body_text.unwrap().contains("\nDate: \nSubject: Hello\n"));
}
