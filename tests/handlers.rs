use sol_calendar::date::Date;
use sol_calendar::week_state::WeekState;
use sol_calendar::calendar_handler::{CalendarError, CalendarHandler, NewCalendarData};
use sol_calendar::calendar_state::CalendarState;
use sol_calendar::display_mode::EventDisplayMode;
use sol_calendar::locale::{detect_24_hour_format, detect_first_day_of_week, LocalePreferences, Weekday};
use sol_calendar::menu::MenuAction;
use sol_calendar::settings::{AppSettings, SettingsError, SettingsHandler};
use sol_calendar::export::ExportError;
use sol_calendar::views::CalendarView;

#[test]
fn test_24_hour_detection() {
    assert_eq!(detect_24_hour_format("de_DE.UTF-8"), true);
    assert_eq!(detect_24_hour_format("en_GB.UTF-8"), true);
    assert_eq!(detect_24_hour_format("fr_FR.UTF-8"), true);
    assert_eq!(detect_24_hour_format("en_US.UTF-8"), false);
    assert_eq!(detect_24_hour_format("en_CA.UTF-8"), false);
}

#[test]
fn test_first_day_detection() {
    assert_eq!(detect_first_day_of_week("de_DE.UTF-8"), Weekday::Mon);
    assert_eq!(detect_first_day_of_week("en_GB.UTF-8"), Weekday::Mon);
    assert_eq!(detect_first_day_of_week("en_US.UTF-8"), Weekday::Sun);
    assert_eq!(detect_first_day_of_week("ja_JP.UTF-8"), Weekday::Sun);
    assert_eq!(detect_first_day_of_week("ar_SA.UTF-8"), Weekday::Sun);
}

#[test]
fn saturday_first_locales() {
    assert_eq!(detect_first_day_of_week("ar_IQ.UTF-8"), Weekday::Sat);
    assert_eq!(detect_first_day_of_week("C"), Weekday::Mon);
}

#[test]
fn test_hour_formatting() {
    let locale_24h = LocalePreferences {
        use_24_hour: true,
        first_day_of_week: Weekday::Mon,
        locale_string: "de_DE.UTF-8".to_string(),
    };

    assert_eq!(locale_24h.format_hour(0), "00:00");
    assert_eq!(locale_24h.format_hour(13), "13:00");
    assert_eq!(locale_24h.format_hour(23), "23:00");

    let locale_12h = LocalePreferences {
        use_24_hour: false,
        first_day_of_week: Weekday::Sun,
        locale_string: "en_US.UTF-8".to_string(),
    };

    assert_eq!(locale_12h.format_hour(0), "12 AM");
    assert_eq!(locale_12h.format_hour(1), "1 AM");
    assert_eq!(locale_12h.format_hour(12), "12 PM");
    assert_eq!(locale_12h.format_hour(13), "1 PM");
}

#[test]
fn hour_formatting_two_digit_twelve_hour() {
    let p = LocalePreferences::from_locale("en_US.UTF-8".to_string());
    assert!(!p.use_24_hour);
    assert_eq!(p.format_hour(11), "11 AM");
    assert_eq!(p.format_hour(22), "10 PM");
    assert_eq!(p.days_from_monday(), -6);
    let q = LocalePreferences::from_locale("fr_FR.UTF-8".to_string());
    assert_eq!(q.format_hour(7), "07:00");
    assert_eq!(q.days_from_monday(), 0);
}

#[test]
fn test_validate_empty_name() {
    let data = NewCalendarData {
        name: "".to_string(),
        color: "#FF0000".to_string(),
    };
    let result = CalendarHandler::validate(&data);
    assert!(matches!(result, Err(CalendarError::ValidationError(_))));
}

#[test]
fn test_validate_valid_data() {
    let data = NewCalendarData {
        name: "Work".to_string(),
        color: "#FF0000".to_string(),
    };
    let result = CalendarHandler::validate(&data);
    assert!(result.is_ok());
}

#[test]
fn validate_blank_name_and_missing_color() {
    let blank = NewCalendarData { name: " \t ".to_string(), color: "#FF0000".to_string() };
    assert!(matches!(CalendarHandler::validate(&blank), Err(CalendarError::ValidationError(_))));
    let no_color = NewCalendarData { name: "Home".to_string(), color: String::new() };
    let err = CalendarHandler::validate(&no_color).unwrap_err();
    assert_eq!(err.message(), "Invalid calendar: Calendar color is required");
}

#[test]
fn test_default_color() {
    let color = CalendarHandler::default_color();
    assert!(!color.is_empty());
    assert!(color.starts_with('#'));
}

#[test]
fn test_load_settings() {
    // Nothing stored yet: the defaults
    let result = SettingsHandler::load(None);
    assert!(result.is_ok());
}

#[test]
fn test_toggle_creates_opposite() {
    let mut settings = AppSettings::default();
    let original = settings.show_week_numbers;

    // Toggle (but don't save to avoid file system in tests)
    settings.show_week_numbers = !settings.show_week_numbers;

    assert_ne!(settings.show_week_numbers, original);
}

#[test]
fn settings_text_round_trip() {
    let mut settings = AppSettings::defaults();
    let text = SettingsHandler::toggle_week_numbers(&mut settings).unwrap();
    assert!(settings.show_week_numbers);
    assert_eq!(text, "show_week_numbers=true");
    let loaded = SettingsHandler::load(Some(text.as_str())).unwrap();
    assert_eq!(loaded, settings);
    let text = SettingsHandler::set_week_numbers(&mut settings, false).unwrap();
    assert_eq!(SettingsHandler::load(Some(text.as_str())).unwrap(), AppSettings::defaults());
    assert!(SettingsHandler::load(Some("garbage")).is_err());
    assert_eq!(SettingsHandler::reset_to_defaults().unwrap(), AppSettings::defaults());
}

#[test]
fn view_cycle() {
    assert_eq!(CalendarView::Year.next(), CalendarView::Month);
    assert_eq!(CalendarView::Day.next(), CalendarView::Year);
    assert_eq!(CalendarView::Year.previous(), CalendarView::Day);
    assert_eq!(CalendarView::Week.previous(), CalendarView::Month);
    for v in [CalendarView::Year, CalendarView::Month, CalendarView::Week, CalendarView::Day] {
        assert_eq!(v.next().previous(), v);
    }
}

#[test]
fn display_mode_accessors() {
    let full = EventDisplayMode::Full { max_visible: 3, show_overflow: true };
    let compact = EventDisplayMode::Compact { max_visible: 5, show_overflow: false };
    assert!(!full.is_compact());
    assert!(compact.is_compact());
    assert_eq!(full.max_visible(), 3);
    assert_eq!(compact.max_visible(), 5);
    assert!(full.show_overflow());
    assert!(!compact.show_overflow());
}

#[test]
fn menu_targets() {
    assert_eq!(MenuAction::ViewMonth.target_view(), Some(CalendarView::Month));
    assert_eq!(MenuAction::ViewDay.target_view(), Some(CalendarView::Day));
    assert_eq!(MenuAction::About.target_view(), None);
}

#[test]
fn calendar_state_today() {
    let state = CalendarState {
        year: 2025,
        month: 3,
        weeks: vec![],
        today: (2025, 3, 14),
        month_year_text: "March 2025".to_string(),
    };
    assert!(state.is_today(14));
    assert!(!state.is_today(15));
    assert!(state.is_current_month());
    let other = CalendarState { month: 4, ..state };
    assert!(!other.is_today(14));
    assert!(!other.is_current_month());
}

#[test]
fn month_grid_layout() {
    // March 2025 starts on a Saturday and has 31 days.
    let state = CalendarState::new(2025, 3, (2025, 3, 14));
    assert_eq!(state.month_year_text, "March 2025");
    assert_eq!(state.weeks.len(), 6);
    assert_eq!(state.weeks[0], vec![None, None, None, None, None, Some(1), Some(2)]);
    assert_eq!(state.weeks[5], vec![Some(31), None, None, None, None, None, None]);
    assert!(state.weeks.iter().all(|w| w.len() == 7));
    // February 2021 starts on a Monday and fills exactly four weeks.
    let feb = CalendarState::new(2021, 2, (2025, 3, 14));
    assert_eq!(feb.weeks.len(), 4);
    assert_eq!(feb.weeks[3][6], Some(28));
    assert!(!feb.is_current_month());
}

#[test]
fn week_state_layout() {
    let d = |year: i32, month: u32, day: u32| Date { year, month, day };
    // Wednesday 2024-01-03, weeks from Monday
    let w = WeekState::new(d(2024, 1, 3), Weekday::Mon, d(2024, 1, 5)).unwrap();
    assert_eq!(w.days[0], d(2024, 1, 1));
    assert_eq!(w.days[6], d(2024, 1, 7));
    assert_eq!(w.week_range_text, "Jan 1 - 7, 2024");
    assert_eq!(w.week_number, 1);
    assert!(w.contains_today());
    assert!(w.is_today(&d(2024, 1, 5)));
    // weeks from Sunday, across a month
    let w = WeekState::new(d(2024, 2, 1), Weekday::Sun, d(2024, 1, 5)).unwrap();
    assert_eq!(w.days[0], d(2024, 1, 28));
    assert_eq!(w.week_range_text, "Jan 28 - Feb 3, 2024");
    assert!(!w.contains_today());
    // across a year
    let w = WeekState::new(d(2025, 1, 1), Weekday::Mon, d(2025, 1, 1)).unwrap();
    assert_eq!(w.week_range_text, "Dec 30, 2024 - Jan 5, 2025");
    assert_eq!(w.year, 2025);
}

#[test]
fn month_grid_week_numbers() {
    let state = CalendarState::new(2025, 3, (2025, 3, 14));
    assert_eq!(state.week_numbers(), vec![9, 10, 11, 12, 13, 14]);
    let jan = CalendarState::new(2021, 1, (2025, 3, 14));
    // 2021-01-01 is a Friday in ISO week 53 of 2020
    assert_eq!(jan.week_numbers()[0], 53);
}

#[test]
fn error_messages() {
    let e = CalendarError::NotFound("x".to_string());
    assert_eq!(e.message(), "Calendar not found: x");
    assert_eq!(CalendarError::ConfigError("disk".to_string()).message(), "Config error: disk");
    assert_eq!(CalendarError::DuplicateId("w".to_string()).message(), "Calendar ID already exists: w");
    assert_eq!(SettingsError::SaveError("full".to_string()).message(), "Failed to save settings: full");
    assert_eq!(SettingsError::LoadError("bad".to_string()).message(), "Failed to load settings: bad");
    assert_eq!(SettingsError::ValidationError("v".to_string()).message(), "Invalid setting: v");
    assert_eq!(ExportError::IoError("e".to_string()).message(), "I/O error: e");
    assert_eq!(ExportError::FormatError("f".to_string()).message(), "Format error: f");
    assert_eq!(ExportError::CalendarNotFound("c".to_string()).message(), "Calendar not found: c");
}
