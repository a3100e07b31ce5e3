use sol_calendar::calendar_handler::{CalendarError, CalendarHandler, CalendarInfo, NewCalendarData, UpdateCalendarData};

fn list() -> Vec<CalendarInfo> {
    vec![
        CalendarInfo { id: "personal".to_string(), name: "Personal".to_string(), color: "#3B82F6".to_string(), enabled: true },
        CalendarInfo { id: "work".to_string(), name: "Work".to_string(), color: "#8B5CF6".to_string(), enabled: true },
    ]
}

#[test]
fn ids_from_names() {
    let cals = list();
    assert_eq!(CalendarHandler::generate_id("  Team Sync! ", &cals), "team-sync");
    assert_eq!(CalendarHandler::generate_id("Work", &cals), "work-1");
    let mut more = list();
    more.push(CalendarInfo { id: "work-1".to_string(), name: "w".to_string(), color: "#000000".to_string(), enabled: true });
    assert_eq!(CalendarHandler::generate_id("WORK", &more), "work-2");
}

#[test]
fn create_update_toggle_delete() {
    let mut cals = list();
    let id = CalendarHandler::create(&mut cals, NewCalendarData { name: "Family Trips".to_string(), color: "#10B981".to_string() }).unwrap();
    assert_eq!(id, "family-trips");
    assert_eq!(cals.len(), 3);
    assert!(matches!(
        CalendarHandler::create(&mut cals, NewCalendarData { name: " ".to_string(), color: "#10B981".to_string() }),
        Err(CalendarError::ValidationError(_))
    ));
    assert_eq!(CalendarHandler::toggle_enabled(&mut cals, "work").unwrap(), false);
    assert_eq!(CalendarHandler::get_info(&cals, "work").unwrap(), ("Work".to_string(), "#8B5CF6".to_string(), false));
    CalendarHandler::change_color(&mut cals, "work", "#EF4444".to_string()).unwrap();
    assert_eq!(cals[1].color, "#EF4444");
    let blank = UpdateCalendarData { name: Some("".to_string()), color: Some("#000000".to_string()), enabled: None };
    assert!(matches!(CalendarHandler::update(&mut cals, "work", blank), Err(CalendarError::ValidationError(_))));
    assert_eq!(cals[1].color, "#EF4444");
    let rename = UpdateCalendarData { name: Some("Job".to_string()), color: None, enabled: Some(true) };
    CalendarHandler::update(&mut cals, "work", rename).unwrap();
    assert_eq!(CalendarHandler::get_info(&cals, "work").unwrap(), ("Job".to_string(), "#EF4444".to_string(), true));
    assert!(matches!(CalendarHandler::delete(&mut cals, "nope"), Err(CalendarError::NotFound(_))));
    CalendarHandler::delete(&mut cals, "personal").unwrap();
    assert_eq!(CalendarHandler::get_first_calendar_id(&cals), Some("work".to_string()));
    assert_eq!(CalendarHandler::get_first_calendar_id(&Vec::new()), None);
}
