use sol_calendar::date::{Date, Timestamp};
use sol_calendar::event::{AlertTime, CalendarEvent, RepeatFrequency, TravelTime};
use sol_calendar::form::EventForm;
use sol_calendar::recurrence::{expand, hits_iteration_cap, move_event};

fn d(year: i32, month: u32, day: u32) -> Date {
    Date { year, month, day }
}

fn at(date: Date, hour: u32, minute: u32) -> Timestamp {
    Timestamp { date, seconds: hour * 3600 + minute * 60 }
}

fn event(uid: &str, start: Timestamp, end: Timestamp, repeat: RepeatFrequency) -> CalendarEvent {
    CalendarEvent {
        uid: uid.to_string(),
        summary: "Summary".to_string(),
        location: None,
        all_day: false,
        start,
        end,
        travel_time: TravelTime::NoTravel,
        repeat,
        repeat_until: None,
        exception_dates: vec![],
        invitees: vec![],
        alert: AlertTime::NoAlert,
        alert_second: None,
        attachments: vec![],
        url: None,
        notes: None,
    }
}

#[test]
fn weekly_standup_scenario() {
    let mut ev = event(
        "standup",
        at(d(2025, 1, 6), 9, 0),
        at(d(2025, 1, 6), 10, 0),
        RepeatFrequency::Weekly,
    );
    ev.repeat_until = Some(d(2025, 1, 27));
    ev.exception_dates = vec![d(2025, 1, 13)];
    let occ = expand(&ev, d(2025, 1, 1), d(2025, 1, 31));
    let dates: Vec<Date> = occ.iter().map(|o| o.date).collect();
    assert_eq!(dates, vec![d(2025, 1, 6), d(2025, 1, 20), d(2025, 1, 27)]);
    let uids: Vec<&str> = occ.iter().map(|o| o.event.uid.as_str()).collect();
    assert_eq!(uids, vec!["standup_20250106", "standup_20250120", "standup_20250127"]);
    for o in &occ {
        assert_eq!(o.event.start, at(o.date, 9, 0));
        assert_eq!(o.event.end, at(o.date, 10, 0));
        assert_eq!(o.event.summary, "Summary");
    }
}

#[test]
fn non_recurring_inside_and_outside_window() {
    let ev = event("single", at(d(2025, 3, 10), 8, 0), at(d(2025, 3, 10), 9, 0), RepeatFrequency::Never);
    let inside = expand(&ev, d(2025, 3, 10), d(2025, 3, 10));
    assert_eq!(inside.len(), 1);
    assert_eq!(inside[0].event.uid, "single");
    assert_eq!(inside[0].date, d(2025, 3, 10));
    assert!(expand(&ev, d(2025, 3, 11), d(2025, 3, 31)).is_empty());
    assert!(expand(&ev, d(2025, 2, 1), d(2025, 3, 9)).is_empty());
}

#[test]
fn weekly_count_over_window() {
    // A series that began before the window: a 31-day window holds 4 or 5 weeks.
    let ev = event("w", at(d(2024, 12, 2), 7, 0), at(d(2024, 12, 2), 8, 0), RepeatFrequency::Weekly);
    let occ = expand(&ev, d(2025, 1, 1), d(2025, 1, 31));
    assert_eq!(occ.len(), 4);
    let occ = expand(&ev, d(2024, 12, 30), d(2025, 1, 29));
    assert_eq!(occ.len(), 5);
}

#[test]
fn exception_removes_exactly_one() {
    let base = event("d", at(d(2025, 5, 1), 12, 0), at(d(2025, 5, 1), 13, 0), RepeatFrequency::Daily);
    let all = expand(&base, d(2025, 5, 1), d(2025, 5, 5));
    assert_eq!(all.len(), 5);
    let mut with = base;
    with.exception_dates.push(d(2025, 5, 3));
    let fewer = expand(&with, d(2025, 5, 1), d(2025, 5, 5));
    let dates: Vec<Date> = fewer.iter().map(|o| o.date).collect();
    assert_eq!(dates, vec![d(2025, 5, 1), d(2025, 5, 2), d(2025, 5, 4), d(2025, 5, 5)]);
}

#[test]
fn monthly_clamps_to_month_end() {
    let ev = event("m", at(d(2025, 1, 31), 9, 0), at(d(2025, 1, 31), 9, 30), RepeatFrequency::Monthly);
    let occ = expand(&ev, d(2025, 1, 1), d(2025, 4, 30));
    let dates: Vec<Date> = occ.iter().map(|o| o.date).collect();
    assert_eq!(dates, vec![d(2025, 1, 31), d(2025, 2, 28), d(2025, 3, 28), d(2025, 4, 28)]);
}

#[test]
fn yearly_and_biweekly() {
    let ev = event("y", at(d(2024, 2, 29), 0, 0), at(d(2024, 2, 29), 1, 0), RepeatFrequency::Yearly);
    let occ = expand(&ev, d(2024, 1, 1), d(2026, 12, 31));
    let dates: Vec<Date> = occ.iter().map(|o| o.date).collect();
    assert_eq!(dates, vec![d(2024, 2, 29), d(2025, 2, 28), d(2026, 2, 28)]);
    let ev = event("b", at(d(2025, 1, 1), 0, 0), at(d(2025, 1, 1), 1, 0), RepeatFrequency::Biweekly);
    let occ = expand(&ev, d(2025, 1, 1), d(2025, 1, 31));
    let dates: Vec<Date> = occ.iter().map(|o| o.date).collect();
    assert_eq!(dates, vec![d(2025, 1, 1), d(2025, 1, 15), d(2025, 1, 29)]);
}

#[test]
fn custom_rule_is_not_expanded() {
    let ev = event(
        "c",
        at(d(2025, 1, 1), 0, 0),
        at(d(2025, 1, 1), 1, 0),
        RepeatFrequency::Custom("FREQ=DAILY".to_string()),
    );
    assert!(expand(&ev, d(2025, 1, 2), d(2025, 1, 31)).is_empty());
    // the start itself is the first cursor date
    assert_eq!(expand(&ev, d(2025, 1, 1), d(2025, 1, 31)).len(), 1);
}

#[test]
fn iteration_cap_truncates_old_series() {
    // Daily since 2020: more than 1000 cursor dates before the window.
    let ev = event("old", at(d(2020, 1, 1), 6, 0), at(d(2020, 1, 1), 7, 0), RepeatFrequency::Daily);
    assert!(expand(&ev, d(2025, 1, 1), d(2025, 1, 31)).is_empty());
    let occ = expand(&ev, d(2020, 1, 1), d(2025, 1, 31));
    assert_eq!(occ.len(), 1000);
    assert_eq!(occ[999].date, d(2022, 9, 26));
}

#[test]
fn multi_day_occurrence_keeps_length() {
    let mut ev = event("trip", at(d(2025, 6, 30), 22, 0), at(d(2025, 7, 2), 6, 30), RepeatFrequency::Weekly);
    ev.repeat_until = Some(d(2025, 7, 7));
    let occ = expand(&ev, d(2025, 6, 1), d(2025, 7, 31));
    assert_eq!(occ.len(), 2);
    assert_eq!(occ[1].event.start, at(d(2025, 7, 7), 22, 0));
    assert_eq!(occ[1].event.end, at(d(2025, 7, 9), 6, 30));
    assert_eq!(occ[1].event.uid, "trip_20250707");
}

#[test]
fn suppressing_one_occurrence() {
    let mut ev = event("standup", at(d(2025, 1, 6), 9, 0), at(d(2025, 1, 6), 10, 0), RepeatFrequency::Weekly);
    assert!(!sol_calendar::recurrence::suppress_occurrence(&mut ev, "other_20250113"));
    assert!(!sol_calendar::recurrence::suppress_occurrence(&mut ev, "standup"));
    assert!(ev.exception_dates.is_empty());
    assert!(sol_calendar::recurrence::suppress_occurrence(&mut ev, "standup_20250113"));
    assert_eq!(ev.exception_dates, vec![d(2025, 1, 13)]);
    let dates: Vec<Date> = expand(&ev, d(2025, 1, 1), d(2025, 1, 31)).iter().map(|o| o.date).collect();
    assert_eq!(dates, vec![d(2025, 1, 6), d(2025, 1, 20), d(2025, 1, 27)]);
}

#[test]
fn series_at_the_last_representable_days() {
    let ev = event("end", at(d(9999, 12, 30), 23, 0), at(d(9999, 12, 31), 1, 0), RepeatFrequency::Daily);
    let occ = expand(&ev, d(9999, 12, 1), d(9999, 12, 31));
    let dates: Vec<Date> = occ.iter().map(|o| o.date).collect();
    assert_eq!(dates, vec![d(9999, 12, 30), d(9999, 12, 31)]);
    // the last occurrence ends on a day past the four-digit years
    assert_eq!(occ[1].event.end.date, d(10000, 1, 1));
    assert_eq!(occ[1].event.uid, "end_99991231");
    assert_eq!(sol_calendar::display::month_view_range(9999, 12), None);
    assert_eq!(sol_calendar::display::month_view_range(0, 1), None);
    assert!(sol_calendar::display::month_view_range(0, 2).is_some());
}

#[test]
fn window_before_series_start_is_empty() {
    let ev = event("late", at(d(2025, 6, 1), 9, 0), at(d(2025, 6, 1), 10, 0), RepeatFrequency::Weekly);
    assert!(expand(&ev, d(2025, 1, 1), d(2025, 5, 31)).is_empty());
    let mut until = event("until", at(d(2025, 6, 1), 9, 0), at(d(2025, 6, 1), 10, 0), RepeatFrequency::Daily);
    until.repeat_until = Some(d(2025, 6, 3));
    assert_eq!(expand(&until, d(2025, 6, 1), d(2025, 6, 30)).len(), 3);
}

#[test]
fn iteration_cap_is_reported() {
    let old = event("old", at(d(2020, 1, 1), 6, 0), at(d(2020, 1, 1), 7, 0), RepeatFrequency::Daily);
    assert!(hits_iteration_cap(&old, d(2025, 1, 31)));
    assert!(!hits_iteration_cap(&old, d(2022, 9, 26)));
    assert!(hits_iteration_cap(&old, d(2022, 9, 27)));
    let weekly = event("w", at(d(2024, 12, 2), 7, 0), at(d(2024, 12, 2), 8, 0), RepeatFrequency::Weekly);
    assert!(!hits_iteration_cap(&weekly, d(2025, 1, 31)));
    let single = event("s", at(d(2000, 1, 1), 7, 0), at(d(2000, 1, 1), 8, 0), RepeatFrequency::Never);
    assert!(!hits_iteration_cap(&single, d(2025, 1, 31)));
}

#[test]
fn moving_an_event_between_days() {
    let ev = event("m", at(d(2025, 2, 27), 22, 0), at(d(2025, 3, 1), 2, 0), RepeatFrequency::Weekly);
    let later = move_event(&ev, d(2025, 2, 27), d(2025, 3, 3)).unwrap();
    assert_eq!(later.start, at(d(2025, 3, 3), 22, 0));
    assert_eq!(later.end, at(d(2025, 3, 5), 2, 0));
    assert_eq!(later.uid, "m");
    let earlier = move_event(&ev, d(2025, 3, 3), d(2025, 2, 27)).unwrap();
    assert_eq!(earlier.start, at(d(2025, 2, 23), 22, 0));
    assert_eq!(earlier.end, at(d(2025, 2, 25), 2, 0));
    let same = move_event(&ev, d(2025, 1, 1), d(2025, 1, 1)).unwrap();
    assert_eq!(same.start, ev.start);
    let edge = event("e", at(d(9999, 12, 30), 0, 0), at(d(9999, 12, 31), 0, 0), RepeatFrequency::Never);
    assert!(move_event(&edge, d(2025, 1, 1), d(2025, 1, 2)).is_none());
}

#[test]
fn quick_events() {
    assert!(CalendarEvent::quick("u1".to_string(), "  \t", d(2025, 1, 1), d(2025, 1, 1), None).is_none());
    let all_day = CalendarEvent::quick("u2".to_string(), "  Trip ", d(2025, 1, 1), d(2025, 1, 3), None).unwrap();
    assert_eq!(all_day.summary, "Trip");
    assert!(all_day.all_day);
    assert_eq!(all_day.start, at(d(2025, 1, 1), 0, 0));
    assert_eq!(all_day.end, Timestamp { date: d(2025, 1, 3), seconds: 86399 });
    let timed = CalendarEvent::quick("u3".to_string(), "Call", d(2025, 1, 2), d(2025, 1, 2), Some((9 * 3600, 9 * 3600 + 1800))).unwrap();
    assert!(!timed.all_day);
    assert_eq!(timed.end, at(d(2025, 1, 2), 9, 30));
    assert_eq!(timed.uid, "u3");
    assert_eq!(timed.repeat, RepeatFrequency::Never);
}

#[test]
fn editor_form_to_event() {
    let form = |title: &str, all_day: bool, start_time: Option<u32>| EventForm {
        title: title.to_string(),
        location: String::new(),
        all_day,
        start_date: d(2025, 4, 2),
        start_time,
        end_date: d(2025, 4, 2),
        end_time: None,
        travel_time: TravelTime::FifteenMinutes,
        repeat: RepeatFrequency::Monthly,
        invitees: vec!["a@example.org".to_string()],
        alert: AlertTime::OneHour,
        alert_second: None,
        attachments: vec![],
        url: "https://example.org".to_string(),
        notes: "  \n".to_string(),
    };
    assert!(form("   ", false, None).into_event("x".to_string()).is_none());
    let timed = form(" Review ", false, Some(14 * 3600)).into_event("id-1".to_string()).unwrap();
    assert_eq!(timed.summary, "Review");
    assert_eq!(timed.start, at(d(2025, 4, 2), 14, 0));
    assert_eq!(timed.end, at(d(2025, 4, 2), 10, 0));
    assert_eq!(timed.location, None);
    assert_eq!(timed.url.as_deref(), Some("https://example.org"));
    assert_eq!(timed.notes, None);
    assert_eq!(timed.repeat, RepeatFrequency::Monthly);
    let defaults = form("Plan", false, None).into_event("id-2".to_string()).unwrap();
    assert_eq!(defaults.start, at(d(2025, 4, 2), 9, 0));
    let all_day = form("Holiday", true, Some(14 * 3600)).into_event("id-3".to_string()).unwrap();
    assert_eq!(all_day.start, at(d(2025, 4, 2), 0, 0));
    assert_eq!(all_day.end, Timestamp { date: d(2025, 4, 2), seconds: 86399 });
}
