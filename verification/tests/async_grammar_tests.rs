use tuimail::async_grammar::{compose_field_to_string, ComposeField, GrammarCheckMessage, GrammarScheduler, RequestIds, SchedulerStep};
use tuimail::grammarcheck::GrammarChecker;

#[test]
fn field_names() {
    assert_eq!(compose_field_to_string(&ComposeField::To), "To");
    assert_eq!(compose_field_to_string(&ComposeField::Cc), "Cc");
    assert_eq!(compose_field_to_string(&ComposeField::Bcc), "Bcc");
    assert_eq!(compose_field_to_string(&ComposeField::Subject), "Subject");
    assert_eq!(compose_field_to_string(&ComposeField::Body), "Body");
}

fn check(text: &str, field: &str, id: u64) -> GrammarCheckMessage {
    GrammarCheckMessage::CheckText { text: text.to_string(), field_type: field.to_string(), request_id: id }
}

#[test]
fn requests_wait_two_seconds_and_latest_wins() {
    let checker = GrammarChecker::new().unwrap();
    let mut s = GrammarScheduler::new();
    assert_eq!(s.wait_ms(0), 3_600_000);
    assert_eq!(s.on_message(check("one", "Body", 1), 1000), SchedulerStep::Continue);
    assert_eq!(s.on_message(check("two", "Body", 2), 1500), SchedulerStep::Continue);
    assert_eq!(s.wait_ms(2500), 1000);
    assert!(s.on_timeout(3000, &checker).is_none());
    let r = s.on_timeout(3500, &checker).unwrap();
    assert_eq!(r.request_id, 2);
    assert_eq!(r.field_type, "Body");
    assert!(r.errors.is_empty());
    assert!(s.pending.is_none());
}

#[test]
fn address_fields_and_cancel() {
    let checker = GrammarChecker::new().unwrap();
    let mut s = GrammarScheduler::new();
    s.on_message(check("a@b.c", "To", 1), 0);
    assert!(s.on_timeout(5000, &checker).is_none());
    assert!(s.pending.is_none());
    s.on_message(check("text", "Subject", 2), 0);
    s.on_message(GrammarCheckMessage::Cancel, 10);
    assert!(s.pending.is_none());
    assert_eq!(s.on_message(GrammarCheckMessage::Shutdown, 20), SchedulerStep::Stop);
}

#[test]
fn request_ids_count_up() {
    let mut ids = RequestIds::new();
    assert_eq!(ids.issue(), 1);
    assert_eq!(ids.issue(), 2);
    ids.next = u64::MAX;
    assert_eq!(ids.issue(), u64::MAX);
    assert_eq!(ids.next, 0);
}
