use tuimail::config::{EmailAccount, ImapSecurity};
use tuimail::credentials::SecureCredentials;
use tuimail::email::{Email, EmailError};
use tuimail::sync::{check_store_id, finish_fetch, merge_emails, open_sequence_set, sequence_set, uid_list_exec, EmailClient, FetchedMessage, FolderMetadata, ReconnectDecision, SyncPlan};

fn mail(id: &str, date: i64, subject: &str) -> Email {
    let mut e = Email::new();
    e.id = id.to_string();
    e.date = date;
    e.subject = subject.to_string();
    e
}

fn ids(v: &[Email]) -> Vec<(String, String)> {
    v.iter().map(|e| (e.id.clone(), e.subject.clone())).collect()
}

fn client() -> EmailClient {
    let creds = SecureCredentials::new(true, None).unwrap();
    EmailClient::new(EmailAccount { email: "me.you@x.org".to_string(), ..EmailAccount::default() }, creds, "/home/u")
}

#[test]
fn client_paths() {
    let c = client();
    assert_eq!(c.db_path, "/home/u/.cache/tuimail/me_you_at_x_org/emails.db");
    assert!(c.uses_tls());
    let mut plain = c.clone();
    plain.account.imap_security = ImapSecurity::Plain;
    assert!(!plain.uses_tls());
}

#[test]
fn merge_replaces_by_id_and_sorts_newest_first() {
    let cached = vec![mail("1", 10, "old one"), mail("2", 30, "two"), mail("3", 20, "three")];
    let new = vec![mail("1", 40, "new one"), mail("4", 20, "four")];
    let m = merge_emails(cached, new);
    assert_eq!(
        ids(&m),
        vec![
            ("1".to_string(), "new one".to_string()),
            ("2".to_string(), "two".to_string()),
            ("3".to_string(), "three".to_string()),
            ("4".to_string(), "four".to_string()),
        ]
    );
}

#[test]
fn fetch_results() {
    let cached = vec![mail("1", 1, "a")];
    let r = finish_fetch(cached.clone(), Ok(vec![mail("2", 2, "b")]), 0).unwrap();
    assert_eq!(r.len(), 2);
    let many: Vec<Email> = (0..150).map(|i| mail(&i.to_string(), i, "x")).collect();
    assert_eq!(finish_fetch(vec![], Ok(many.clone()), 5).unwrap().len(), 100);
    assert_eq!(finish_fetch(vec![], Ok(many.clone()), 120).unwrap().len(), 120);
    assert_eq!(finish_fetch(vec![], Ok(many), 0).unwrap().len(), 150);
    let kept = finish_fetch(cached, Err(EmailError::ConnectionError("down".to_string())), 0).unwrap();
    assert_eq!(ids(&kept), vec![("1".to_string(), "a".to_string())]);
    assert!(finish_fetch(vec![], Err(EmailError::ConnectionError("down".to_string())), 0).is_err());
}

#[test]
fn sync_plans() {
    let mut m = FolderMetadata::new(0);
    assert!(matches!(m.plan_sync(0), SyncPlan::EmptyFolder));
    match m.plan_sync(1201) {
        SyncPlan::Initial(b) => assert_eq!(b, vec![(1, 500), (501, 1000), (1001, 1201)]),
        _ => panic!("expected batches"),
    }
    m.record_fetched(&[Some(5), None, Some(9), Some(5)], 3);
    assert_eq!(m.last_uid, 9);
    assert_eq!(m.total_messages, 3);
    assert_eq!(m.downloaded_uids, vec![5, 9]);
    assert!(matches!(m.plan_sync(3), SyncPlan::UpToDate));
    assert!(matches!(m.plan_sync(4), SyncPlan::SinceUid(10)));
    assert_eq!(sequence_set(1, 500), "1:500");
    assert_eq!(open_sequence_set(10), "10:*");
}

#[test]
fn latest_uid_and_idle_support() {
    let c = client();
    assert_eq!(c.get_latest_uid(&[]), 0);
    assert_eq!(c.get_latest_uid(&[3, 17, 4]), 17);
    assert!(c.supports_idle(Some(true)));
    assert!(!c.supports_idle(Some(false)));
    assert!(!c.supports_idle(None));
}

#[test]
fn idle_reconnection_policy() {
    let c = client();
    let mut s = c.run_idle_session("INBOX");
    assert_eq!(s.folder, "INBOX");
    let mut waits = Vec::new();
    loop {
        match s.on_session_error() {
            ReconnectDecision::RetryAfter(secs) => waits.push(secs),
            ReconnectDecision::GiveUp => break,
        }
    }
    assert_eq!(waits, vec![5, 10, 15, 20, 25, 30, 35, 40, 45]);
    assert!(s.on_notification(3));
    assert!(!s.on_notification(3));
    assert!(!s.on_timeout(false));
    assert!(!s.on_timeout(true));
    assert!(!s.on_timeout(false));
    assert!(!s.on_timeout(false));
    assert!(s.on_timeout(false));
}

#[test]
fn fetched_messages_become_emails() {
    let body = b"From: a@example.com\r\nSubject: one\r\nDate: Tue, 14 Nov 2023 22:13:20 +0000\r\n\r\nx\r\n".to_vec();
    let later = b"From: b@example.com\r\nSubject: two\r\nDate: Wed, 15 Nov 2023 22:13:20 +0000\r\n\r\ny\r\n".to_vec();
    let msgs = vec![
        FetchedMessage { uid: Some(7), flags: vec!["\\Seen".to_string()], body: Some(body.clone()) },
        FetchedMessage { uid: Some(0), flags: vec![], body: Some(body.clone()) },
        FetchedMessage { uid: None, flags: vec![], body: Some(body) },
        FetchedMessage { uid: Some(8), flags: vec![], body: None },
        FetchedMessage { uid: Some(9), flags: vec![], body: Some(later) },
    ];
    let emails = tuimail::sync::parse_messages(&msgs, "INBOX");
    assert_eq!(ids(&emails), vec![("9".to_string(), "two".to_string()), ("7".to_string(), "one".to_string())]);
    assert!(emails[1].seen);
}

#[test]
fn merge_keeps_each_id_once_newest_first() {
    let cached = vec![mail("a", 5, "cached a"), mail("b", 50, "cached b")];
    let new = vec![mail("c", 7, "first c"), mail("a", 9, "fetched a"), mail("c", 8, "second c")];
    let m = merge_emails(cached, new);
    assert_eq!(
        ids(&m),
        vec![
            ("b".to_string(), "cached b".to_string()),
            ("a".to_string(), "fetched a".to_string()),
            ("c".to_string(), "second c".to_string()),
        ]
    );
    for w in m.windows(2) {
        assert!(w[0].date >= w[1].date);
    }
}

#[test]
fn uid_lists_and_store_ids() {
    assert_eq!(uid_list_exec(&[]), "");
    assert_eq!(uid_list_exec(&[42]), "42");
    assert_eq!(uid_list_exec(&[7, 100, 3]), "7,100,3");
    assert!(check_store_id("15").is_ok());
    assert!(check_store_id("00").is_ok());
    for bad in ["", "0"] {
        match check_store_id(bad) {
            Err(EmailError::ImapError(m)) => assert_eq!(m, "Invalid email ID for STORE operation"),
            other => panic!("unexpected {:?}", other),
        }
    }
}

#[test]
fn restored_metadata_keeps_each_uid_once() {
    let m = FolderMetadata::restore(9, 12, 77, &[5, 3, 5, 9, 3]);
    assert_eq!(m.downloaded_uids, vec![5, 3, 9]);
    assert_eq!((m.last_uid, m.total_messages, m.last_sync), (9, 12, 77));
}

#[test]
fn recording_keeps_earlier_uids() {
    let mut m = FolderMetadata::restore(4, 2, 0, &[3, 4]);
    m.record_fetched(&[Some(7), None, Some(3)], 5);
    assert_eq!(m.downloaded_uids, vec![3, 4, 7]);
    assert_eq!(m.last_uid, 7);
    assert_eq!(m.total_messages, 5);
}

#[test]
fn messages_after_a_uid_keep_server_order() {
    let body = b"From: a@example.com\r\nSubject: one\r\nDate: Tue, 14 Nov 2023 22:13:20 +0000\r\n\r\nx\r\n".to_vec();
    let later = b"From: b@example.com\r\nSubject: two\r\nDate: Wed, 15 Nov 2023 22:13:20 +0000\r\n\r\ny\r\n".to_vec();
    let msgs = vec![
        FetchedMessage { uid: Some(7), flags: vec![], body: Some(body.clone()) },
        FetchedMessage { uid: None, flags: vec![], body: Some(later) },
        FetchedMessage { uid: Some(8), flags: vec![], body: None },
    ];
    let emails = tuimail::sync::parse_messages_since_uid(&msgs, "INBOX");
    assert_eq!(ids(&emails), vec![("7".to_string(), "one".to_string()), ("0".to_string(), "two".to_string())]);
}
