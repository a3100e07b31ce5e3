use rusqlite::{Connection, ToSql};
use sol_calendar::codec::{decode_row, encode_event, EventRow};
use sol_calendar::date::{Date, Timestamp};
use sol_calendar::event::{AlertTime, CalendarEvent, RepeatFrequency, TravelTime};
use sol_calendar::schema::{
    migration_plan, step_sql, SchemaStep, DELETE_CALENDAR_EVENTS_SQL, DELETE_EVENT_SQL,
    INSERT_EVENT_SQL, READ_VERSION_SQL, SCHEMA_VERSION, SELECT_CALENDAR_EVENTS_SQL,
};

fn event(uid: &str) -> CalendarEvent {
    let day = Date { year: 2025, month: 11, day: 29 };
    CalendarEvent {
        uid: uid.to_string(),
        summary: "Test Event".to_string(),
        location: Some("Test Location".to_string()),
        all_day: false,
        start: Timestamp { date: day, seconds: 10 * 3600 },
        end: Timestamp { date: day, seconds: 11 * 3600 },
        travel_time: TravelTime::NoTravel,
        repeat: RepeatFrequency::Never,
        repeat_until: None,
        exception_dates: vec![],
        invitees: vec![],
        alert: AlertTime::FifteenMinutes,
        alert_second: None,
        attachments: vec![],
        url: None,
        notes: Some("A test event".to_string()),
    }
}

fn stored_version(conn: &Connection) -> i64 {
    conn.query_row(READ_VERSION_SQL, [], |row| row.get::<_, String>(0))
        .map(|v| v.parse::<i64>().unwrap_or(0))
        .unwrap_or(0)
}

fn open(conn: &Connection) -> usize {
    let plan = migration_plan(stored_version(conn));
    for step in &plan {
        conn.execute_batch(step_sql(*step)).unwrap();
    }
    plan.len()
}

fn insert(conn: &Connection, calendar_id: &str, row: &EventRow) -> rusqlite::Result<usize> {
    let params: [&dyn ToSql; 17] = [
        &calendar_id,
        &row.uid,
        &row.summary,
        &row.location,
        &row.all_day,
        &row.start_time,
        &row.end_time,
        &row.travel_time,
        &row.repeat,
        &row.repeat_until,
        &row.exception_dates,
        &row.invitees,
        &row.alert,
        &row.alert_second,
        &row.attachments,
        &row.url,
        &row.notes,
    ];
    conn.execute(INSERT_EVENT_SQL, &params[..])
}

fn list(conn: &Connection, calendar_id: &str) -> Vec<CalendarEvent> {
    let mut stmt = conn.prepare(SELECT_CALENDAR_EVENTS_SQL).unwrap();
    let rows = stmt
        .query_map([calendar_id], |r| {
            Ok(EventRow {
                uid: r.get(0)?,
                summary: r.get(1)?,
                location: r.get(2)?,
                all_day: r.get(3)?,
                start_time: r.get(4)?,
                end_time: r.get(5)?,
                travel_time: r.get(6)?,
                repeat: r.get(7)?,
                repeat_until: r.get(8)?,
                exception_dates: r.get(9)?,
                invitees: r.get(10)?,
                alert: r.get(11)?,
                alert_second: r.get(12)?,
                attachments: r.get(13)?,
                url: r.get(14)?,
                notes: r.get(15)?,
            })
        })
        .unwrap();
    let now = Timestamp { date: Date { year: 2000, month: 1, day: 1 }, seconds: 0 };
    rows.map(|r| decode_row(&r.unwrap(), now)).collect()
}

#[test]
fn fresh_store_is_created_and_stamped() {
    let conn = Connection::open_in_memory().unwrap();
    assert_eq!(migration_plan(0), vec![SchemaStep::CreateTables, SchemaStep::StampVersion]);
    assert_eq!(open(&conn), 2);
    assert_eq!(stored_version(&conn), SCHEMA_VERSION);
}

#[test]
fn reopening_current_store_changes_nothing() {
    let conn = Connection::open_in_memory().unwrap();
    open(&conn);
    insert(&conn, "cal1", &encode_event(&event("event1"))).unwrap();
    assert!(migration_plan(SCHEMA_VERSION).is_empty());
    assert_eq!(open(&conn), 0);
    let events = list(&conn, "cal1");
    assert_eq!(events.len(), 1);
    assert_eq!(events[0].summary, "Test Event");
    assert_eq!(events[0].alert, AlertTime::FifteenMinutes);
}

#[test]
fn insert_conflict_and_delete() {
    let conn = Connection::open_in_memory().unwrap();
    open(&conn);
    let row = encode_event(&event("event1"));
    insert(&conn, "cal1", &row).unwrap();
    assert!(insert(&conn, "cal1", &row).is_err());
    // the same uid may live in another calendar
    insert(&conn, "cal2", &row).unwrap();
    let removed = conn.execute(DELETE_EVENT_SQL, ["cal1", "event1"]).unwrap();
    assert_eq!(removed, 1);
    assert!(list(&conn, "cal1").is_empty());
    assert_eq!(list(&conn, "cal2").len(), 1);
}

#[test]
fn deleting_a_calendar_removes_its_rows() {
    let conn = Connection::open_in_memory().unwrap();
    open(&conn);
    insert(&conn, "work", &encode_event(&event("a"))).unwrap();
    insert(&conn, "work", &encode_event(&event("b"))).unwrap();
    insert(&conn, "home", &encode_event(&event("a"))).unwrap();
    let count = conn.execute(DELETE_CALENDAR_EVENTS_SQL, ["work"]).unwrap();
    assert_eq!(count, 2);
    assert!(list(&conn, "work").is_empty());
    assert_eq!(list(&conn, "home").len(), 1);
}

#[test]
fn migrates_first_version_store() {
    let conn = Connection::open_in_memory().unwrap();
    conn.execute_batch(
        "CREATE TABLE meta (key TEXT PRIMARY KEY, value TEXT NOT NULL);
         INSERT INTO meta (key, value) VALUES ('schema_version', '1');
         CREATE TABLE events (uid TEXT PRIMARY KEY, calendar_id TEXT NOT NULL, summary TEXT NOT NULL,
             location TEXT, all_day INTEGER NOT NULL DEFAULT 0, start_time TEXT NOT NULL,
             end_time TEXT NOT NULL, description TEXT,
             created_at TEXT NOT NULL DEFAULT (datetime('now')),
             updated_at TEXT NOT NULL DEFAULT (datetime('now')));
         INSERT INTO events (uid, calendar_id, summary, start_time, end_time, description)
             VALUES ('old', 'cal1', 'Legacy', '2024-05-01T08:00:00+00:00', '2024-05-01T09:00:00+00:00', 'kept');",
    )
    .unwrap();
    assert_eq!(
        migration_plan(1),
        vec![
            SchemaStep::AddEventFields,
            SchemaStep::AddRepeatUntil,
            SchemaStep::AddExceptionDates,
            SchemaStep::CompositeUniqueKey,
            SchemaStep::StampVersion,
        ]
    );
    assert_eq!(open(&conn), 5);
    assert_eq!(stored_version(&conn), SCHEMA_VERSION);
    let events = list(&conn, "cal1");
    assert_eq!(events.len(), 1);
    assert_eq!(events[0].notes.as_deref(), Some("kept"));
    assert_eq!(events[0].repeat, RepeatFrequency::Never);
    assert!(events[0].exception_dates.is_empty());
    // the migrated table takes the same uid in another calendar
    insert(&conn, "cal2", &encode_event(&event("old"))).unwrap();
    assert_eq!(open(&conn), 0);
}

#[test]
fn plans_from_intermediate_versions() {
    assert_eq!(
        migration_plan(3),
        vec![SchemaStep::AddExceptionDates, SchemaStep::CompositeUniqueKey, SchemaStep::StampVersion]
    );
    assert_eq!(migration_plan(4), vec![SchemaStep::CompositeUniqueKey, SchemaStep::StampVersion]);
    assert!(migration_plan(7).is_empty());
}
