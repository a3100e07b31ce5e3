use sol_calendar::date::{Date, Timestamp};
use sol_calendar::export::{event_from_fields, ExportError, ExportHandler, IcalEvent, IcalMoment};

const SAMPLE: &str = "BEGIN:VCALENDAR\r\nVERSION:2.0\r\nPRODID:-//Google Inc//Google Calendar 70.9054//EN\r\nBEGIN:VEVENT\r\nUID:abc-1\r\nDTSTAMP:20250101T000000Z\r\nSUMMARY:Dentist\r\nDTSTART:20250310T140000Z\r\nDTEND:20250310T150000Z\r\nLOCATION:Main St\r\nEND:VEVENT\r\nBEGIN:VEVENT\r\nUID:abc-2\r\nSUMMARY:Holiday\r\nDTSTART;VALUE=DATE:20250704\r\nEND:VEVENT\r\nEND:VCALENDAR\r\n";

#[test]
fn dialects() {
    assert_eq!(ExportHandler::detect_dialect(SAMPLE), Some("google"));
    assert_eq!(ExportHandler::detect_dialect("PRODID:-//Microsoft Corporation//Outlook 16.0//EN"), Some("outlook"));
    assert_eq!(ExportHandler::detect_dialect("X\nPRODID:-//Apple Inc.//macOS 13//EN\n"), Some("apple"));
    assert_eq!(ExportHandler::detect_dialect("PRODID:-//Mozilla.org/NONSGML Mozilla Calendar V1.1//EN"), Some("thunderbird"));
    assert_eq!(ExportHandler::detect_dialect("PRODID:Yahoo"), Some("yahoo"));
    assert_eq!(ExportHandler::detect_dialect("PRODID:-//Example//EN\nPRODID:Google"), Some("google"));
    assert_eq!(ExportHandler::detect_dialect("X-PRODID:Google"), None);
    assert_eq!(ExportHandler::detect_dialect(""), None);
}

#[test]
fn validation_of_text() {
    assert!(ExportHandler::validate_ical_file(SAMPLE).is_ok());
    assert!(matches!(ExportHandler::validate_ical_file("BEGIN:VCALENDAR"), Err(ExportError::ValidationError(_))));
    let no_version = SAMPLE.replace("VERSION:2.0", "X-VER:2.0");
    assert!(matches!(ExportHandler::validate_ical_file(&no_version), Err(ExportError::ValidationError(_))));
    let backwards = SAMPLE.replace("DTEND:20250310T150000Z", "DTEND:20250310T130000Z");
    let err = ExportHandler::validate_ical_file(&backwards).unwrap_err();
    assert_eq!(err.message(), "Validation error: Event uid=abc-1 has DTEND before DTSTART");
}

#[test]
fn parsing_events() {
    let events = ExportHandler::parse_ical_file(SAMPLE).unwrap();
    assert_eq!(events.len(), 2);
    assert_eq!(events[0].uid, "abc-1");
    assert_eq!(events[0].summary, "Dentist");
    assert_eq!(events[0].location.as_deref(), Some("Main St"));
    assert!(!events[0].all_day);
    assert_eq!(events[0].start, Timestamp { date: Date { year: 2025, month: 3, day: 10 }, seconds: 14 * 3600 });
    assert_eq!(events[0].end, Timestamp { date: Date { year: 2025, month: 3, day: 10 }, seconds: 15 * 3600 });
    assert!(events[1].all_day);
    assert_eq!(events[1].start, Timestamp { date: Date { year: 2025, month: 7, day: 4 }, seconds: 0 });
    assert_eq!(events[1].end, Timestamp { date: Date { year: 2025, month: 7, day: 4 }, seconds: 3600 });
}

#[test]
fn fields_without_end_or_summary() {
    let late = IcalEvent {
        uid: Some("late".to_string()),
        summary: Some("Late".to_string()),
        start: Some(IcalMoment::Utc(Timestamp { date: Date { year: 2025, month: 12, day: 31 }, seconds: 23 * 3600 + 1800 })),
        end: None,
        location: None,
        description: Some("notes".to_string()),
        url: None,
    };
    let ev = event_from_fields(&late).unwrap();
    assert_eq!(ev.end, Timestamp { date: Date { year: 2026, month: 1, day: 1 }, seconds: 1800 });
    assert_eq!(ev.notes.as_deref(), Some("notes"));
    let nameless = IcalEvent { summary: None, ..late };
    assert!(matches!(event_from_fields(&nameless), Err(ExportError::ParseError(_))));
}

#[test]
fn import_skips_known_uids() {
    let incoming = ExportHandler::parse_ical_file(SAMPLE).unwrap();
    let existing = ExportHandler::parse_ical_file(SAMPLE).unwrap().into_iter().take(1).collect::<Vec<_>>();
    let fresh = ExportHandler::new_events(&existing, incoming);
    assert_eq!(fresh.len(), 1);
    assert_eq!(fresh[0].uid, "abc-2");
    let all = ExportHandler::new_events(&vec![], ExportHandler::parse_ical_file(SAMPLE).unwrap());
    assert_eq!(all.len(), 2);
}

#[test]
fn event_checks_over_plain_fields() {
    let good = IcalEvent {
        uid: Some("a".to_string()),
        summary: Some("A".to_string()),
        start: Some(IcalMoment::Date(Date { year: 2025, month: 1, day: 2 })),
        end: Some(IcalMoment::Date(Date { year: 2025, month: 1, day: 2 })),
        location: None,
        description: None,
        url: None,
    };
    let backwards = IcalEvent {
        uid: Some("b".to_string()),
        summary: None,
        start: Some(IcalMoment::Date(Date { year: 2025, month: 1, day: 2 })),
        end: Some(IcalMoment::Date(Date { year: 2025, month: 1, day: 1 })),
        location: None,
        description: None,
        url: None,
    };
    let no_uid = IcalEvent { uid: None, summary: Some("C".to_string()), start: None, end: None, location: None, description: None, url: None };
    assert!(ExportHandler::validate_events(&vec![]).is_ok());
    let only_good = vec![IcalEvent {
        uid: good.uid.clone(),
        summary: good.summary.clone(),
        start: good.start,
        end: good.end,
        location: None,
        description: None,
        url: None,
    }];
    assert!(ExportHandler::validate_events(&only_good).is_ok());
    let mixed = vec![good, backwards, no_uid];
    assert!(matches!(ExportHandler::validate_events(&mixed), Err(ExportError::ValidationError(_))));
    // only the first event has uid, summary and start
    let events = ExportHandler::events_from_fields(&mixed);
    assert_eq!(events.len(), 1);
    assert_eq!(events[0].uid, "a");
    assert!(events[0].all_day);
}

#[test]
fn events_without_uid_are_rejected_and_skipped() {
    let missing_uid = SAMPLE.replace("UID:abc-2\r\n", "");
    assert!(matches!(ExportHandler::validate_ical_file(&missing_uid), Err(ExportError::ValidationError(_))));
    // the event without uid is skipped on import
    assert_eq!(ExportHandler::parse_ical_file(&missing_uid).unwrap().len(), 1);
}
