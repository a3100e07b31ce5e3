use sol_calendar::date::Date;
use sol_calendar::display::ClockTime;
use sol_calendar::drag::EventDragState;

fn d(year: i32, month: u32, day: u32) -> Date {
    Date { year, month, day }
}

#[test]
fn drag_to_another_day() {
    let mut state = EventDragState::new();
    assert!(state.end().is_none());
    state.start("work".to_string(), "ev_20250106".to_string(), d(2025, 1, 6), "Standup".to_string(), "#8B5CF6".to_string());
    assert!(state.is_active);
    assert_eq!(state.event_summary().as_deref(), Some("Standup"));
    state.update(d(2025, 1, 3));
    assert_eq!(state.target_date(), Some(d(2025, 1, 3)));
    assert_eq!(state.get_offset(), Some(-3));
    let moved = state.end().unwrap();
    assert_eq!(moved, ("work".to_string(), "ev_20250106".to_string(), d(2025, 1, 6), d(2025, 1, 3)));
    assert!(!state.is_active);
    assert_eq!(state.target_date(), None);
}

#[test]
fn drop_on_same_day_is_no_move() {
    let mut state = EventDragState::new();
    state.start("home".to_string(), "x".to_string(), d(2025, 2, 1), "X".to_string(), "#000000".to_string());
    state.update(d(2025, 2, 1));
    assert_eq!(state.get_offset(), Some(0));
    assert!(state.end().is_none());
    assert!(state.event_uid.is_none());
}

#[test]
fn drag_with_time_and_cancel() {
    let mut state = EventDragState::new();
    let nine = ClockTime { hour: 9, minute: 0 };
    let ten = ClockTime { hour: 10, minute: 30 };
    state.start_with_time("c".to_string(), "u".to_string(), d(2025, 2, 27), Some(nine), "S".to_string(), "#111111".to_string());
    state.update_with_time(d(2025, 2, 27), ten);
    assert_eq!(state.target_time(), Some(ten));
    assert_eq!(state.end_with_time(), Some(("u".to_string(), d(2025, 2, 27), Some(nine), d(2025, 2, 27), Some(ten))));
    state.start("c".to_string(), "u".to_string(), d(2025, 2, 27), "S".to_string(), "#111111".to_string());
    state.update(d(2025, 3, 2));
    assert_eq!(state.get_offset(), Some(3));
    state.cancel();
    assert!(!state.is_active);
    assert!(state.end().is_none());
}
