use caldav_tasks::calobject::parse_calendar_document;
use caldav_tasks::collection::TaskCollection;
use caldav_tasks::credentials::{get_credentials, Credentials};
use caldav_tasks::task::{Task, TaskMessage};
use caldav_tasks::timestamp::Timestamp;
use caldav_tasks::transport::Method;

fn noon() -> Timestamp {
    Timestamp { year: 2024, month: 6, day: 15, hour: 12, minute: 0, second: 0 }
}

#[test]
fn mark_done_then_undone_clears_completion() {
    let mut task = Task::new(String::from("Call the plumber"));
    task.set_done(noon());
    assert_eq!(task.done(), Some(noon()));
    task.set_undone();
    assert!(task.done().is_none());
    assert_eq!(task.summary().as_str(), "Call the plumber");
}

#[test]
fn mark_undone_is_idempotent() {
    let mut task = Task::new(String::from("A"));
    task.set_undone();
    assert!(task.done().is_none());
    task.set_undone();
    assert!(task.done().is_none());
}

#[test]
fn set_done_overwrites_in_place() {
    let mut task = Task::new(String::from("A"));
    task.set_done(noon());
    let later = Timestamp { year: 2025, month: 1, day: 2, hour: 3, minute: 4, second: 5 };
    task.set_done(later);
    assert_eq!(task.done(), Some(later));
    assert_eq!(task.properties.len(), 2);
}

#[test]
fn completed_is_stored_as_a_property() {
    let mut task = Task::new(String::from("A"));
    task.set_done(noon());
    assert_eq!(
        task.find_property_value("COMPLETED").unwrap().as_str(),
        "20240615T120000Z"
    );
}

#[test]
fn task_message_applies_completion() {
    let mut task = Task::new(String::from("A"));
    TaskMessage::Completed(true).apply(&mut task, noon());
    assert_eq!(task.done(), Some(noon()));
    TaskMessage::Completed(false).apply(&mut task, noon());
    assert!(task.done().is_none());
}

#[test]
fn collection_update_task_touches_one_task() {
    let doc = "BEGIN:VCALENDAR\nVERSION:2.0\nPRODID:x\nBEGIN:VTODO\nSUMMARY:First\nEND:VTODO\nBEGIN:VTODO\nSUMMARY:Second\nEND:VTODO\nEND:VCALENDAR";
    let data = parse_calendar_document(doc).unwrap();
    let mut col = TaskCollection {
        url: String::from("https://example.com/cal/list.ics"),
        etag: Some(String::from("v1")),
        index: 0,
        data,
    };
    col.update_task(1, TaskMessage::Completed(true), noon());
    assert!(col.tasks()[0].done().is_none());
    assert_eq!(col.tasks()[1].done(), Some(noon()));
    // the change token is untouched by a local mutation
    assert_eq!(col.etag.as_deref(), Some("v1"));
}

#[test]
fn write_request_serializes_the_collection() {
    let doc = "BEGIN:VCALENDAR\nVERSION:2.0\nPRODID:x\nBEGIN:VTODO\nSUMMARY:Only\nEND:VTODO\nEND:VCALENDAR";
    let data = parse_calendar_document(doc).unwrap();
    let col = TaskCollection {
        url: String::from("https://example.com/cal/only.ics"),
        etag: None,
        index: 0,
        data,
    };
    let req = col.write_request();
    assert_eq!(req.method, Method::Put);
    assert_eq!(req.depth, 0);
    assert_eq!(
        req.body.as_str(),
        "BEGIN:VCALENDAR\r\nVERSION:2.0\r\nPRODID:caldav-tasks\r\nBEGIN:VTODO\r\nSUMMARY:Only\r\nEND:VTODO\r\nEND:VCALENDAR\r\n"
    );
}

#[test]
fn sync_is_an_unconditional_overwrite() {
    // current behavior: the held change token is not sent as a write
    // precondition, so the write-back would overwrite a concurrent
    // remote modification
    let doc = "BEGIN:VCALENDAR\nVERSION:2.0\nPRODID:x\nBEGIN:VTODO\nSUMMARY:A\nEND:VTODO\nEND:VCALENDAR";
    let data = parse_calendar_document(doc).unwrap();
    let col = TaskCollection {
        url: String::from("https://example.com/cal/a.ics"),
        etag: Some(String::from("held-token-v1")),
        index: 0,
        data,
    };
    let req = col.write_request();
    assert!(!req.body.contains("held-token-v1"));
    // the held token survives locally, to be checked only by a re-fetch
    assert_eq!(col.etag.as_deref(), Some("held-token-v1"));
}

#[test]
fn credentials_encode_basic_auth() {
    let c = Credentials { user: String::from("user"), password: String::from("password") };
    assert_eq!(c.encode().as_str(), "Basic dXNlcjpwYXNzd29yZA==");
}

#[test]
fn get_credentials_builds_the_pair() {
    let c = get_credentials(String::from("alice"), String::from("s3cret"));
    assert_eq!(c.user.as_str(), "alice");
    assert_eq!(c.password.as_str(), "s3cret");
}

#[test]
fn error_carries_kind_and_message() {
    let doc = "BEGIN:VCALENDAR\nVERSION:2.0\nPRODID:x\nBEGIN:VTODO\nEND:VTODO\nEND:VCALENDAR";
    let err = parse_calendar_document(doc).unwrap_err();
    assert!(err.message().len() > 0);
}
