use sol_calendar::date::Date;
use sol_calendar::occurrence::{extract_master_uid, extract_occurrence_date, occurrence_uid};

#[test]
fn occurrence_uid_round_trip() {
    let date = Date { year: 2025, month: 1, day: 6 };
    let id = occurrence_uid("standup", date);
    assert_eq!(id, "standup_20250106");
    assert_eq!(extract_master_uid(&id), "standup");
    assert_eq!(extract_occurrence_date(&id), Some(date));
}

#[test]
fn master_uid_with_underscores() {
    let date = Date { year: 999, month: 12, day: 31 };
    let id = occurrence_uid("team_sync_2", date);
    assert_eq!(id, "team_sync_2_09991231");
    assert_eq!(extract_master_uid(&id), "team_sync_2");
    assert_eq!(extract_occurrence_date(&id), Some(date));
}

#[test]
fn plain_uids_are_left_alone() {
    assert_eq!(extract_master_uid("abc-123"), "abc-123");
    assert_eq!(extract_master_uid("abc_123"), "abc_123");
    assert_eq!(extract_master_uid("abc_2025010"), "abc_2025010");
    assert_eq!(extract_master_uid("abc_2025O106"), "abc_2025O106");
    assert_eq!(extract_occurrence_date("abc-123"), None);
    assert_eq!(extract_occurrence_date("abc_123456789"), None);
}

#[test]
fn invalid_suffix_date() {
    assert_eq!(extract_master_uid("x_20250230"), "x");
    assert_eq!(extract_occurrence_date("x_20250230"), None);
    assert_eq!(extract_occurrence_date("x_20251301"), None);
    assert_eq!(extract_occurrence_date("x_20240229"), Some(Date { year: 2024, month: 2, day: 29 }));
}
