use sol_calendar::date::{Date, Timestamp};
use sol_calendar::display::{
    aggregate, get_display_events_for_month, get_events_for_date, get_events_for_month, get_display_events_for_week, month_view_range,
    CalendarEvents, ClockTime, DisplayEvent, SpanPosition,
};
use sol_calendar::event::{AlertTime, CalendarEvent, RepeatFrequency, TravelTime};
use sol_calendar::views::{navigate_period, CalendarView, NavigationDirection};

fn d(year: i32, month: u32, day: u32) -> Date {
    Date { year, month, day }
}

fn event(uid: &str, all_day: bool, start: Timestamp, end: Timestamp, repeat: RepeatFrequency) -> CalendarEvent {
    CalendarEvent {
        uid: uid.to_string(),
        summary: uid.to_uppercase(),
        location: None,
        all_day,
        start,
        end,
        travel_time: TravelTime::NoTravel,
        repeat,
        repeat_until: None,
        exception_dates: vec![],
        invitees: vec![],
        alert: AlertTime::NoAlert,
        alert_second: None,
        attachments: vec![],
        url: None,
        notes: None,
    }
}

fn sources() -> Vec<CalendarEvents> {
    let trip = event(
        "trip",
        true,
        Timestamp { date: d(2025, 3, 30), seconds: 0 },
        Timestamp { date: d(2025, 4, 2), seconds: 86399 },
        RepeatFrequency::Never,
    );
    let gym = event(
        "gym",
        false,
        Timestamp { date: d(2025, 3, 31), seconds: 18 * 3600 + 15 * 60 },
        Timestamp { date: d(2025, 3, 31), seconds: 19 * 3600 },
        RepeatFrequency::Weekly,
    );
    let hidden = event(
        "hidden",
        false,
        Timestamp { date: d(2025, 4, 1), seconds: 0 },
        Timestamp { date: d(2025, 4, 1), seconds: 60 },
        RepeatFrequency::Never,
    );
    vec![
        CalendarEvents { calendar_id: "personal".to_string(), color: "#3B82F6".to_string(), enabled: true, events: vec![trip, gym] },
        CalendarEvents { calendar_id: "work".to_string(), color: "#8B5CF6".to_string(), enabled: false, events: vec![hidden] },
    ]
}

#[test]
fn multi_day_span_is_clamped_to_range() {
    let items = aggregate(&sources(), d(2025, 3, 30), d(2025, 4, 1));
    let trip: Vec<&DisplayEvent> = items.iter().filter(|e| e.event.uid == "trip").map(|e| &e.event).collect();
    let trip_days: Vec<Date> = items.iter().filter(|e| e.event.uid == "trip").map(|e| e.date).collect();
    assert_eq!(trip_days, vec![d(2025, 3, 30), d(2025, 3, 31), d(2025, 4, 1)]);
    // a series that does not repeat shows only when it starts inside the window
    let later = aggregate(&sources(), d(2025, 4, 1), d(2025, 4, 7));
    assert!(later.iter().all(|e| e.event.uid != "trip"));
    assert!(trip.iter().all(|e| e.all_day && e.span_start == Some(d(2025, 3, 30)) && e.span_end == Some(d(2025, 4, 2))));
    assert!(trip[0].is_multi_day());
    assert_eq!(trip[0].span_position_for_date(d(2025, 3, 30)), SpanPosition::First);
    assert_eq!(trip[0].span_position_for_date(d(2025, 3, 31)), SpanPosition::Middle);
    assert_eq!(trip[0].span_position_for_date(d(2025, 4, 2)), SpanPosition::Last);
    assert_eq!(trip[0].span_position_for_date(d(2025, 4, 9)), SpanPosition::Single);
}

#[test]
fn timed_occurrences_carry_clock_times() {
    let items = aggregate(&sources(), d(2025, 4, 1), d(2025, 4, 7));
    let gym: Vec<_> = items.iter().filter(|e| e.event.uid.starts_with("gym")).collect();
    assert_eq!(gym.len(), 1);
    assert_eq!(gym[0].date, d(2025, 4, 7));
    assert_eq!(gym[0].event.uid, "gym_20250407");
    assert_eq!(gym[0].event.start_time, Some(ClockTime { hour: 18, minute: 15 }));
    assert_eq!(gym[0].event.end_time, Some(ClockTime { hour: 19, minute: 0 }));
    assert_eq!(gym[0].event.color, "#3B82F6");
    assert!(!gym[0].event.is_multi_day());
    // the disabled calendar contributes nothing
    assert!(items.iter().all(|e| e.event.calendar_id == "personal"));
}

#[test]
fn month_window_spills_into_neighbours() {
    assert_eq!(month_view_range(2025, 4), Some((d(2025, 3, 26), d(2025, 5, 13))));
    assert_eq!(month_view_range(2025, 1), Some((d(2024, 12, 26), d(2025, 2, 13))));
    assert_eq!(month_view_range(2024, 3), Some((d(2024, 2, 24), d(2024, 4, 13))));
    assert_eq!(month_view_range(2025, 13), None);
    let items = get_display_events_for_month(&sources(), 2025, 4);
    let gym_days: Vec<Date> = items.iter().filter(|e| e.event.uid.starts_with("gym")).map(|e| e.date).collect();
    assert_eq!(gym_days, vec![d(2025, 3, 31), d(2025, 4, 7), d(2025, 4, 14), d(2025, 4, 21), d(2025, 4, 28), d(2025, 5, 5), d(2025, 5, 12)]);
}

#[test]
fn week_view_uses_first_and_last_day() {
    let week = vec![d(2025, 3, 30), d(2025, 3, 31), d(2025, 4, 1), d(2025, 4, 2), d(2025, 4, 3), d(2025, 4, 4), d(2025, 4, 5)];
    let items = get_display_events_for_week(&sources(), &week);
    let days: Vec<Date> = items.iter().map(|e| e.date).collect();
    assert_eq!(days, vec![d(2025, 3, 30), d(2025, 3, 31), d(2025, 4, 1), d(2025, 4, 2), d(2025, 3, 31)]);
    assert!(get_display_events_for_week(&sources(), &vec![]).is_empty());
}

#[test]
fn period_navigation() {
    let day = d(2024, 1, 31);
    assert_eq!(navigate_period(CalendarView::Month, day, NavigationDirection::Next), Some(d(2024, 2, 28)));
    assert_eq!(navigate_period(CalendarView::Month, d(2024, 1, 15), NavigationDirection::Previous), Some(d(2023, 12, 15)));
    assert_eq!(navigate_period(CalendarView::Year, d(2024, 2, 29), NavigationDirection::Next), Some(d(2025, 2, 28)));
    assert_eq!(navigate_period(CalendarView::Week, day, NavigationDirection::Next), Some(d(2024, 2, 7)));
    assert_eq!(navigate_period(CalendarView::Week, day, NavigationDirection::Previous), Some(d(2024, 1, 24)));
    assert_eq!(navigate_period(CalendarView::Day, d(2024, 3, 1), NavigationDirection::Previous), Some(d(2024, 2, 29)));
    assert_eq!(navigate_period(CalendarView::Day, d(0, 1, 1), NavigationDirection::Previous), None);
}

#[test]
fn events_by_start_day_and_month() {
    let events = &sources()[0].events;
    let on = get_events_for_date(events, d(2025, 3, 31));
    assert_eq!(on.len(), 1);
    assert_eq!(on[0].uid, "gym");
    let march = get_events_for_month(events, 2025, 3);
    assert_eq!(march.len(), 2);
    assert!(get_events_for_month(events, 2025, 4).is_empty());
}
