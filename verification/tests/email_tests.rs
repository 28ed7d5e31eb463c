use tuimail::email::{parse_email_addresses, Email, HeaderMap};
use tuimail::mime::{MimeAddr, MimeBody, MimeContentType, MimeHeader, MimePart, MimeValue, ParsedMessage};

fn addr(name: Option<&str>, address: &str) -> (Option<String>, String) {
    (name.map(|n| n.to_string()), address.to_string())
}

fn pairs(v: &[tuimail::email::EmailAddress]) -> Vec<(Option<String>, String)> {
    v.iter().map(|a| (a.name.clone(), a.address.clone())).collect()
}

#[test]
fn parses_address_forms() {
    let parsed = parse_email_addresses("\"John Doe\" <john@example.com>, Jane <jane@example.com>,<bare@example.com>, plain@example.com, nonsense, ,");
    assert_eq!(
        pairs(&parsed),
        vec![
            addr(Some("John Doe"), "john@example.com"),
            addr(Some("Jane"), "jane@example.com"),
            addr(None, "bare@example.com"),
            addr(None, "plain@example.com"),
        ]
    );
    assert!(parse_email_addresses("").is_empty());
    assert!(parse_email_addresses("no address here").is_empty());
    assert!(parse_email_addresses("Broken <missing.close").is_empty());
}

#[test]
fn header_map_keeps_one_value_per_name() {
    let mut h = HeaderMap::new();
    h.insert("Subject".to_string(), "one".to_string());
    h.insert("To".to_string(), "a@b.c".to_string());
    h.insert("Subject".to_string(), "two".to_string());
    assert_eq!(h.len(), 2);
    assert_eq!(h.get("Subject").map(|s| s.as_str()), Some("two"));
    assert_eq!(h.get("To").map(|s| s.as_str()), Some("a@b.c"));
    assert!(h.get("subject").is_none());
}

#[test]
fn threading_headers_round_trip() {
    let mut e = Email::new();
    assert_eq!(e.folder, "INBOX");
    assert!(e.references().is_empty());
    assert_eq!(e.message_id(), "");
    e.set_references(vec!["<a@x>".to_string(), "<b@y>".to_string()]);
    assert_eq!(e.headers.get("References").map(|s| s.as_str()), Some("<a@x> <b@y>"));
    assert_eq!(e.references(), vec!["<a@x>".to_string(), "<b@y>".to_string()]);
    e.set_references(Vec::new());
    assert_eq!(e.references().len(), 2);
    e.set_in_reply_to("<m@z>".to_string());
    assert_eq!(e.headers.get("In-Reply-To").map(|s| s.as_str()), Some("<m@z>"));
    e.headers.insert("Reply-To".to_string(), "r@example.com".to_string());
    e.headers.insert("Message-ID".to_string(), "<id@example.com>".to_string());
    assert_eq!(pairs(&e.reply_to()), vec![addr(None, "r@example.com")]);
    assert_eq!(e.message_id(), "<id@example.com>");
}

fn header(name: &str, debug: &str, value: MimeValue) -> MimeHeader {
    MimeHeader { name: name.to_string(), debug_name: debug.to_string(), value }
}

fn sample_message() -> ParsedMessage {
    let from = MimeValue::Address(MimeAddr { name: Some("Alice".to_string()), address: Some("alice@example.com".to_string()) });
    let headers = vec![
        header("From", "Rfc(From)", from.clone()),
        header("To", "Rfc(To)", MimeValue::AddressList(vec![
            MimeAddr { name: None, address: Some("bob@example.com".to_string()) },
            MimeAddr { name: Some("Carol".to_string()), address: Some("carol@example.com".to_string()) },
        ])),
        header("Subject", "Rfc(Subject)", MimeValue::Text("Hello".to_string())),
        header("Content-Type", "Rfc(ContentType)", MimeValue::ContentType(MimeContentType {
            c_type: "multipart".to_string(),
            c_subtype: Some("mixed".to_string()),
            attributes: vec![],
        })),
    ];
    let attachment = MimePart {
        headers: vec![
            header("Content-Type", "Rfc(ContentType)", MimeValue::ContentType(MimeContentType {
                c_type: "application".to_string(),
                c_subtype: Some("pdf".to_string()),
                attributes: vec![("name".to_string(), "report.pdf".to_string())],
            })),
        ],
        body: MimeBody::Binary(vec![1, 2, 3]),
    };
    let text_part = MimePart {
        headers: vec![header("Content-Type", "Rfc(ContentType)", MimeValue::ContentType(MimeContentType {
            c_type: "text".to_string(),
            c_subtype: Some("plain".to_string()),
            attributes: vec![],
        }))],
        body: MimeBody::Text("Hi Bob".to_string()),
    };
    ParsedMessage {
        subject: Some("Hello".to_string()),
        date: Some(1_700_000_000),
        from,
        headers: headers.clone(),
        body_text: Some("Hi Bob".to_string()),
        body_html: None,
        parts: vec![MimePart { headers, body: MimeBody::Multipart }, text_part, attachment],
    }
}

#[test]
fn email_from_parsed_message() {
    let parsed = sample_message();
    let e = Email::from_parsed_email(&parsed, "42", "INBOX", vec!["\\Seen".to_string()]).unwrap();
    assert_eq!(e.id, "42");
    assert_eq!(e.subject, "Hello");
    assert!(e.seen);
    assert_eq!(e.date, 1_700_000_000);
    assert_eq!(pairs(&e.from), vec![addr(Some("Alice"), "alice@example.com"), addr(Some("Alice"), "alice@example.com")]);
    assert_eq!(pairs(&e.to), vec![addr(None, "bob@example.com"), addr(Some("Carol"), "carol@example.com")]);
    assert_eq!(e.headers.get("To").map(|s| s.as_str()), Some("bob@example.com, Carol <carol@example.com>"));
    assert!(e.headers.get("Content-Type").is_none());
    assert_eq!(e.body_text.as_deref(), Some("Hi Bob"));
    assert_eq!(e.attachments.len(), 1);
    assert_eq!(e.attachments[0].filename, "report.pdf");
    assert_eq!(e.attachments[0].content_type, "application/pdf");
    assert_eq!(e.attachments[0].data, vec![1, 2, 3]);
}

#[test]
fn email_from_parsed_without_date_uses_given_time() {
    let mut parsed = sample_message();
    parsed.date = None;
    let e = Email::email_from_parsed(&parsed, "7", "Sent", vec![], 1234);
    assert_eq!(e.date, 1234);
    assert!(!e.seen);
    assert_eq!(e.folder, "Sent");
}

#[test]
fn from_header_fallback_when_parser_gives_no_sender() {
    let mut parsed = sample_message();
    parsed.from = MimeValue::Other;
    parsed.headers = vec![header("X-From", "Other(\"X-From\")", MimeValue::Text("x".to_string()))];
    parsed.headers.push(header("From", "Rfc(From)", MimeValue::Text("Dan <dan@example.com>".to_string())));
    let e = Email::email_from_parsed(&parsed, "1", "INBOX", vec![], 0);
    assert_eq!(pairs(&e.from), vec![addr(Some("Dan"), "dan@example.com")]);
}

#[test]
fn disposition_text_names_attachment() {
    let part = MimePart {
        headers: vec![
            header("Content-Type", "Other(\"content-type\")", MimeValue::Text("image/png; x=1".to_string())),
            header("Content-Disposition", "Other(\"Content-Disposition\")", MimeValue::Text("attachment; filename=\"photo.png\"".to_string())),
        ],
        body: MimeBody::InlineBinary(vec![9, 9]),
    };
    let a = tuimail::mime::attachment_from_part(&part).unwrap();
    assert_eq!(a.filename, "photo.png");
    assert_eq!(a.content_type, "image/png");
    let no_name = MimePart {
        headers: vec![header("Content-Type", "Rfc(ContentType)", MimeValue::ContentType(MimeContentType {
            c_type: "application".to_string(),
            c_subtype: Some("zip".to_string()),
            attributes: vec![],
        }))],
        body: MimeBody::Binary(vec![1]),
    };
    assert_eq!(tuimail::mime::attachment_from_part(&no_name).unwrap().filename, "archive.zip");
    let odd = MimePart {
        headers: vec![header("Content-Type", "Rfc(ContentType)", MimeValue::ContentType(MimeContentType {
            c_type: "audio".to_string(),
            c_subtype: Some("ogg".to_string()),
            attributes: vec![],
        }))],
        body: MimeBody::Binary(vec![1]),
    };
    assert_eq!(tuimail::mime::attachment_from_part(&odd).unwrap().filename, "attachment.ogg");
    let empty = MimePart { headers: odd.headers.clone(), body: MimeBody::Binary(vec![]) };
    assert!(tuimail::mime::attachment_from_part(&empty).is_none());
    let plain = MimePart { headers: vec![], body: MimeBody::Text("just text".to_string()) };
    assert!(tuimail::mime::attachment_from_part(&plain).is_none());
}

#[test]
fn raw_message_is_parsed() {
    let raw = b"From: Alice <alice@example.com>\r\nTo: bob@example.com\r\nSubject: Test mail\r\nDate: Tue, 14 Nov 2023 22:13:20 +0000\r\nMessage-ID: <abc@example.com>\r\n\r\nHello there\r\n";
    let e = Email::from_raw_message(raw, "5", "INBOX", vec![]).unwrap();
    assert_eq!(e.subject, "Test mail");
    assert_eq!(e.date, 1_700_000_000);
    assert_eq!(e.id, "5");
    assert!(e.from.iter().any(|a| a.address == "alice@example.com"));
    assert_eq!(pairs(&e.to), vec![addr(None, "bob@example.com")]);
    assert_eq!(e.message_id(), "abc@example.com");
    assert!(e.body_text.as_deref().unwrap_or("").starts_with("Hello there"));
}

#[test]
fn unreadable_address_list_is_refused() {
    let mut parsed = sample_message();
    parsed.headers.push(header("Cc", "Rfc(Cc)", MimeValue::Text("a>b <c".to_string())));
    assert!(!tuimail::email::message_addresses_ok_exec(&parsed));
    assert!(tuimail::email::address_list_ok_exec("x@y.z, Name <n@m.o>"));
    assert!(!tuimail::email::address_list_ok_exec("\" <n@m.o>"));
}

#[test]
fn unicode_spaces_separate_references() {
    let v = tuimail::email::split_whitespace_of("<a>\u{3000}<b>\u{85}<c>\u{2009}<d>");
    assert_eq!(v, vec!["<a>", "<b>", "<c>", "<d>"]);
}

#[test]
fn parsed_names_are_never_empty() {
    let v = parse_email_addresses("\"\" <a@x.org>, Bob <b@y.org>, c@z.org, nothing");
    let got: Vec<(Option<String>, String)> = v.into_iter().map(|a| (a.name, a.address)).collect();
    assert_eq!(
        got,
        vec![
            (None, "a@x.org".to_string()),
            (Some("Bob".to_string()), "b@y.org".to_string()),
            (None, "c@z.org".to_string()),
        ]
    );
}

#[test]
fn dates_at_the_edges_of_chrono_range() {
    let mut parsed = sample_message();
    for (ts, kept) in [
        (8_210_266_876_799i64, true),
        (8_210_266_876_800, false),
        (-8_334_601_228_800, true),
        (-8_334_601_228_801, false),
    ] {
        parsed.date = Some(ts);
        let e = Email::email_from_parsed(&parsed, "7", "INBOX", vec![], 42);
        assert_eq!(e.date, if kept { ts } else { 42 }, "{}", ts);
    }
}
