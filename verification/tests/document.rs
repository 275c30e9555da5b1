use caldav_tasks::calobject::{parse_calendar_document, serialize_calendar_document};
use caldav_tasks::error::ErrorKind;
use caldav_tasks::timestamp::{format_utc_timestamp, parse_utc_timestamp, Timestamp};

#[test]
fn parse_simple_completed_task() {
    let doc = "BEGIN:VCALENDAR\nVERSION:2.0\nPRODID:x\nBEGIN:VTODO\nSUMMARY:Water the plants\nCOMPLETED:20240101T120000Z\nEND:VTODO\nEND:VCALENDAR";
    let data = parse_calendar_document(doc).unwrap();
    assert_eq!(data.tasks.len(), 1);
    assert_eq!(data.tasks[0].summary().as_str(), "Water the plants");
    let done = data.tasks[0].done().unwrap();
    assert_eq!(
        done,
        Timestamp { year: 2024, month: 1, day: 1, hour: 12, minute: 0, second: 0 }
    );
}

#[test]
fn parse_task_with_due_date() {
    // an unknown task field such as DUE is dropped, not an error
    let doc = "BEGIN:VCALENDAR\nVERSION:2.0\nPRODID:x\nBEGIN:VTODO\nSUMMARY:File the report\nDUE:20240301T090000Z\nEND:VTODO\nEND:VCALENDAR";
    let data = parse_calendar_document(doc).unwrap();
    assert_eq!(data.tasks.len(), 1);
    assert_eq!(data.tasks[0].summary().as_str(), "File the report");
    assert!(data.tasks[0].done().is_none());
    assert!(data.tasks[0].find_property_value("DUE").is_none());
}

#[test]
fn scenario_buy_milk() {
    let doc = "BEGIN:VCALENDAR\nVERSION:2.0\nPRODID:x\nBEGIN:VTODO\nSUMMARY:Buy milk\nEND:VTODO\nEND:VCALENDAR";
    let data = parse_calendar_document(doc).unwrap();
    assert_eq!(data.tasks.len(), 1);
    assert_eq!(data.tasks[0].summary().as_str(), "Buy milk");
    assert!(data.tasks[0].done().is_none());
}

#[test]
fn round_trip_preserves_tasks() {
    let doc = "BEGIN:VCALENDAR\r\nVERSION:2.0\r\nPRODID:whatever\r\nBEGIN:VTODO\r\nSUMMARY:One\r\nEND:VTODO\r\nBEGIN:VTODO\r\nSUMMARY:Two: with colon\r\nCOMPLETED:20231231T235959Z\r\nEND:VTODO\r\nEND:VCALENDAR";
    let first = parse_calendar_document(doc).unwrap();
    let text = serialize_calendar_document(&first);
    let second = parse_calendar_document(text.as_str()).unwrap();
    assert_eq!(first.tasks.len(), second.tasks.len());
    for i in 0..first.tasks.len() {
        assert_eq!(first.tasks[i].summary(), second.tasks[i].summary());
        assert_eq!(first.tasks[i].done(), second.tasks[i].done());
    }
}

#[test]
fn serializer_emits_fixed_shape() {
    let doc = "BEGIN:VCALENDAR\nVERSION:2.0\nPRODID:x\nBEGIN:VTODO\nSUMMARY:A\nCOMPLETED:20240101T120000Z\nEND:VTODO\nEND:VCALENDAR";
    let data = parse_calendar_document(doc).unwrap();
    let text = serialize_calendar_document(&data);
    assert_eq!(
        text.as_str(),
        "BEGIN:VCALENDAR\r\nVERSION:2.0\r\nPRODID:caldav-tasks\r\nBEGIN:VTODO\r\nSUMMARY:A\r\nCOMPLETED:20240101T120000Z\r\nEND:VTODO\r\nEND:VCALENDAR\r\n"
    );
}

#[test]
fn missing_summary_fails_at_end_of_block() {
    let doc = "BEGIN:VCALENDAR\nVERSION:2.0\nPRODID:x\nBEGIN:VTODO\nEND:VTODO\nEND:VCALENDAR";
    let err = parse_calendar_document(doc).unwrap_err();
    assert_eq!(err.kind(), ErrorKind::DocumentParse);
}

#[test]
fn malformed_completed_is_timestamp_error() {
    let doc = "BEGIN:VCALENDAR\nVERSION:2.0\nPRODID:x\nBEGIN:VTODO\nSUMMARY:A\nCOMPLETED:yesterday\nEND:VTODO\nEND:VCALENDAR";
    let err = parse_calendar_document(doc).unwrap_err();
    assert_eq!(err.kind(), ErrorKind::Timestamp);
}

#[test]
fn line_without_colon_is_rejected() {
    let doc = "BEGIN:VCALENDAR\nVERSION:2.0\nPRODID:x\nnonsense\nEND:VCALENDAR";
    let err = parse_calendar_document(doc).unwrap_err();
    assert_eq!(err.kind(), ErrorKind::DocumentParse);
}

#[test]
fn preamble_deviation_is_fatal() {
    let doc = "BEGIN:VCALENDAR\nVERSION:1.0\nPRODID:x\nEND:VCALENDAR";
    let err = parse_calendar_document(doc).unwrap_err();
    assert_eq!(err.kind(), ErrorKind::DocumentParse);
    let doc2 = "VERSION:2.0\nBEGIN:VCALENDAR\nPRODID:x\nEND:VCALENDAR";
    assert!(parse_calendar_document(doc2).is_err());
}

#[test]
fn trailing_content_is_fatal() {
    let doc = "BEGIN:VCALENDAR\nVERSION:2.0\nPRODID:x\nEND:VCALENDAR\nSUMMARY:late";
    let err = parse_calendar_document(doc).unwrap_err();
    assert_eq!(err.kind(), ErrorKind::DocumentParse);
}

#[test]
fn unexpected_end_is_fatal() {
    let doc = "BEGIN:VCALENDAR\nVERSION:2.0\nPRODID:x\nBEGIN:VTODO\nSUMMARY:A";
    let err = parse_calendar_document(doc).unwrap_err();
    assert_eq!(err.kind(), ErrorKind::DocumentParse);
}

#[test]
fn unrecognized_blocks_are_tolerated() {
    let doc = "BEGIN:VCALENDAR\nVERSION:2.0\nPRODID:x\nBEGIN:VTIMEZONE\nEND:VTIMEZONE\nBEGIN:VTODO\nSUMMARY:A\nEND:VTODO\nEND:VCALENDAR";
    let data = parse_calendar_document(doc).unwrap();
    assert_eq!(data.tasks.len(), 1);
}

#[test]
fn empty_calendar_has_no_tasks() {
    let doc = "BEGIN:VCALENDAR\nVERSION:2.0\nPRODID:anything goes here\nEND:VCALENDAR";
    let data = parse_calendar_document(doc).unwrap();
    assert_eq!(data.tasks.len(), 0);
}

#[test]
fn timestamp_parses_fixed_format() {
    let t = parse_utc_timestamp("20240101T120000Z").unwrap();
    assert_eq!(
        t,
        Timestamp { year: 2024, month: 1, day: 1, hour: 12, minute: 0, second: 0 }
    );
}

#[test]
fn timestamp_rejects_other_shapes() {
    let err = parse_utc_timestamp("2024-01-01").unwrap_err();
    assert_eq!(err.kind(), ErrorKind::Timestamp);
    assert!(parse_utc_timestamp("").is_err());
    assert!(parse_utc_timestamp("20240101 120000Z").is_err());
    assert!(parse_utc_timestamp("20240101T120000").is_err());
}

#[test]
fn timestamp_rejects_impossible_dates() {
    assert!(parse_utc_timestamp("20241301T000000Z").is_err());
    assert!(parse_utc_timestamp("20240231T000000Z").is_err());
    assert!(parse_utc_timestamp("20240100T000000Z").is_err());
    assert!(parse_utc_timestamp("20240101T240000Z").is_err());
    assert!(parse_utc_timestamp("20240101T006000Z").is_err());
}

#[test]
fn timestamp_honours_leap_years() {
    assert!(parse_utc_timestamp("20240229T000000Z").is_ok());
    assert!(parse_utc_timestamp("20230229T000000Z").is_err());
    assert!(parse_utc_timestamp("19000229T000000Z").is_err());
    assert!(parse_utc_timestamp("20000229T000000Z").is_ok());
}

#[test]
fn timestamp_formats_back() {
    let t = Timestamp { year: 987, month: 12, day: 31, hour: 4, minute: 5, second: 6 };
    let s = format_utc_timestamp(&t);
    assert_eq!(s.as_str(), "09871231T040506Z");
    assert_eq!(parse_utc_timestamp(s.as_str()).unwrap(), t);
}
