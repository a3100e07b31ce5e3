use sol_calendar::codec::{decode_row, encode_event, EventRow};
use sol_calendar::date::{Date, Timestamp};
use sol_calendar::event::{AlertTime, CalendarEvent, RepeatFrequency, TravelTime};

fn d(year: i32, month: u32, day: u32) -> Date {
    Date { year, month, day }
}

fn sample(repeat: RepeatFrequency, travel: TravelTime, alert: AlertTime, second: Option<AlertTime>) -> CalendarEvent {
    CalendarEvent {
        uid: "evt-1".to_string(),
        summary: "Planning \"Q3\"".to_string(),
        location: Some("Room 4".to_string()),
        all_day: false,
        start: Timestamp { date: d(2025, 11, 29), seconds: 10 * 3600 },
        end: Timestamp { date: d(2025, 11, 29), seconds: 11 * 3600 + 1800 },
        travel_time: travel,
        repeat,
        repeat_until: Some(d(2026, 3, 1)),
        exception_dates: vec![d(2025, 12, 6), d(2026, 1, 3)],
        invitees: vec!["ann@example.org".to_string(), "bo, \"b\"".to_string()],
        alert,
        alert_second: second,
        attachments: vec!["file:///tmp/a.pdf".to_string()],
        url: Some("https://example.org".to_string()),
        notes: Some("line one\nline two".to_string()),
    }
}

fn now() -> Timestamp {
    Timestamp { date: d(2000, 1, 1), seconds: 0 }
}

fn same(a: &CalendarEvent, b: &CalendarEvent) {
    assert_eq!(a.uid, b.uid);
    assert_eq!(a.summary, b.summary);
    assert_eq!(a.location, b.location);
    assert_eq!(a.all_day, b.all_day);
    assert_eq!(a.start, b.start);
    assert_eq!(a.end, b.end);
    assert_eq!(a.travel_time, b.travel_time);
    assert_eq!(a.repeat, b.repeat);
    assert_eq!(a.repeat_until, b.repeat_until);
    assert_eq!(a.exception_dates, b.exception_dates);
    assert_eq!(a.invitees, b.invitees);
    assert_eq!(a.alert, b.alert);
    assert_eq!(a.alert_second, b.alert_second);
    assert_eq!(a.attachments, b.attachments);
    assert_eq!(a.url, b.url);
    assert_eq!(a.notes, b.notes);
}

#[test]
fn round_trip_every_variant() {
    let repeats = vec![
        RepeatFrequency::Never,
        RepeatFrequency::Daily,
        RepeatFrequency::Weekly,
        RepeatFrequency::Biweekly,
        RepeatFrequency::Monthly,
        RepeatFrequency::Yearly,
        RepeatFrequency::Custom("FREQ=WEEKLY;BYDAY=MO,\"WE\"".to_string()),
    ];
    let travels = [
        TravelTime::NoTravel,
        TravelTime::FiveMinutes,
        TravelTime::FifteenMinutes,
        TravelTime::ThirtyMinutes,
        TravelTime::OneHour,
        TravelTime::TwoHours,
    ];
    let alerts = [
        AlertTime::NoAlert,
        AlertTime::AtTime,
        AlertTime::FiveMinutes,
        AlertTime::TenMinutes,
        AlertTime::FifteenMinutes,
        AlertTime::ThirtyMinutes,
        AlertTime::OneHour,
        AlertTime::TwoHours,
        AlertTime::OneDay,
        AlertTime::TwoDays,
        AlertTime::OneWeek,
    ];
    for (i, r) in repeats.into_iter().enumerate() {
        for (j, t) in travels.iter().enumerate() {
            let a = alerts[(i + j) % alerts.len()];
            let second = if j % 2 == 0 { Some(alerts[(i * 3 + j) % alerts.len()]) } else { None };
            let ev = sample(r.duplicate(), *t, a, second);
            let row = encode_event(&ev);
            let back = decode_row(&row, now());
            same(&ev, &back);
        }
    }
}

#[test]
fn row_texts() {
    let ev = sample(RepeatFrequency::Weekly, TravelTime::NoTravel, AlertTime::FifteenMinutes, None);
    let row = encode_event(&ev);
    assert_eq!(row.start_time, "2025-11-29T10:00:00+00:00");
    assert_eq!(row.end_time, "2025-11-29T11:30:00+00:00");
    assert_eq!(row.repeat, "\"Weekly\"");
    assert_eq!(row.travel_time, "\"None\"");
    assert_eq!(row.alert, "\"FifteenMinutes\"");
    assert_eq!(row.alert_second, None);
    assert_eq!(row.repeat_until.as_deref(), Some("2026-03-01"));
    assert_eq!(row.exception_dates.as_deref(), Some("[\"2025-12-06\",\"2026-01-03\"]"));
    let custom = sample(RepeatFrequency::Custom("FREQ=DAILY".to_string()), TravelTime::OneHour, AlertTime::NoAlert, None);
    assert_eq!(encode_event(&custom).repeat, "{\"Custom\":\"FREQ=DAILY\"}");
}

#[test]
fn corrupt_fields_take_defaults() {
    let row = EventRow {
        uid: "u".to_string(),
        summary: "s".to_string(),
        location: None,
        all_day: true,
        start_time: "not a time".to_string(),
        end_time: "2025-01-02T03:04:05+00:00".to_string(),
        travel_time: "\"Sometimes\"".to_string(),
        repeat: "{broken".to_string(),
        repeat_until: Some("2025-13-01".to_string()),
        exception_dates: None,
        invitees: "nope".to_string(),
        alert: "7".to_string(),
        alert_second: Some("\"OneDay\"".to_string()),
        attachments: "[\"a\"]".to_string(),
        url: None,
        notes: None,
    };
    let ev = decode_row(&row, now());
    assert_eq!(ev.start, now());
    assert_eq!(ev.end, Timestamp { date: d(2025, 1, 2), seconds: 3 * 3600 + 4 * 60 + 5 });
    assert_eq!(ev.travel_time, TravelTime::NoTravel);
    assert_eq!(ev.repeat, RepeatFrequency::Never);
    assert_eq!(ev.repeat_until, None);
    assert!(ev.exception_dates.is_empty());
    assert!(ev.invitees.is_empty());
    assert_eq!(ev.alert, AlertTime::NoAlert);
    assert_eq!(ev.alert_second, Some(AlertTime::OneDay));
    assert_eq!(ev.attachments, vec!["a".to_string()]);
    assert!(ev.all_day);
}

#[test]
fn exception_dates_skip_bad_entries() {
    let mut row = encode_event(&sample(RepeatFrequency::Daily, TravelTime::NoTravel, AlertTime::NoAlert, None));
    row.exception_dates = Some("[\"2025-01-08\",\"junk\",\"2025-02-30\",\"2025-03-01\"]".to_string());
    let ev = decode_row(&row, now());
    assert_eq!(ev.exception_dates, vec![d(2025, 1, 8), d(2025, 3, 1)]);
}

#[test]
fn malformed_enums_and_lists_default() {
    let mut row = encode_event(&sample(RepeatFrequency::Weekly, TravelTime::OneHour, AlertTime::OneDay, Some(AlertTime::AtTime)));
    row.repeat = "{\"Custom\":5}".to_string();
    row.travel_time = "\"Sometimes\"".to_string();
    row.alert_second = Some("\"Later\"".to_string());
    row.exception_dates = Some("{\"not\":\"a list\"}".to_string());
    row.attachments = "[1, 2]".to_string();
    let ev = decode_row(&row, now());
    assert_eq!(ev.repeat, RepeatFrequency::Never);
    assert_eq!(ev.travel_time, TravelTime::NoTravel);
    assert_eq!(ev.alert, AlertTime::OneDay);
    assert_eq!(ev.alert_second, None);
    assert!(ev.exception_dates.is_empty());
    assert!(ev.attachments.is_empty());
    row.repeat = "\"Sometimes\"".to_string();
    assert_eq!(decode_row(&row, now()).repeat, RepeatFrequency::Never);
    row.repeat = "{\"Custom\":\"FREQ=HOURLY\"}".to_string();
    assert_eq!(decode_row(&row, now()).repeat, RepeatFrequency::Custom("FREQ=HOURLY".to_string()));
}
