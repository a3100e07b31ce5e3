//! Layout of the event store and the steps that bring an older store up to
//! the current schema.
//!
//! The store itself lives in a relational database that the application
//! opens; this module decides what to run against it and holds the
//! statements.

use vstd::prelude::*;

verus! {

/// Schema version that this library writes and reads.
pub const SCHEMA_VERSION: i64 = 5;

/// One all-or-nothing change to the stored schema.
#[derive(Clone, Copy, Debug, PartialEq, Eq, Structural)]
pub enum SchemaStep {
    /// Create the current tables and indexes in an empty database.
    CreateTables,
    /// Move the first event table to the full set of fields; the old
    /// `description` column becomes `notes`.
    AddEventFields,
    /// Add the `repeat_until` column.
    AddRepeatUntil,
    /// Add the `exception_dates` column, an empty JSON list by default.
    AddExceptionDates,
    /// Make `(calendar_id, uid)` unique in place of a key on `uid` alone.
    CompositeUniqueKey,
    /// Record the current schema version.
    StampVersion,
}

/// The steps that bring a store at `version` to [`SCHEMA_VERSION`]. Version 0
/// stands for a store without a recorded version, which is created afresh.
pub open spec fn migration_steps(version: int) -> Seq<SchemaStep> {
    if version == 0 {
        seq![SchemaStep::CreateTables, SchemaStep::StampVersion]
    } else if version < SCHEMA_VERSION {
        (if version < 2 { seq![SchemaStep::AddEventFields] } else { Seq::empty() }) + (if version
            < 3 {
            seq![SchemaStep::AddRepeatUntil]
        } else {
            Seq::empty()
        }) + (if version < 4 {
            seq![SchemaStep::AddExceptionDates]
        } else {
            Seq::empty()
        }) + seq![SchemaStep::CompositeUniqueKey, SchemaStep::StampVersion]
    } else {
        Seq::empty()
    }
}

/// The steps to run, in order, on a store whose recorded version is `version`.
pub fn migration_plan(version: i64) -> (r: Vec<SchemaStep>)
    ensures
        r@ == migration_steps(version as int),
{
    let mut r: Vec<SchemaStep> = Vec::new();
    if version == 0 {
        r.push(SchemaStep::CreateTables);
        r.push(SchemaStep::StampVersion);
        proof {
            assert(r@ =~= migration_steps(version as int));
        }
        return r;
    }
    if version < SCHEMA_VERSION {
        if version < 2 {
            r.push(SchemaStep::AddEventFields);
        }
        if version < 3 {
            r.push(SchemaStep::AddRepeatUntil);
        }
        if version < 4 {
            r.push(SchemaStep::AddExceptionDates);
        }
        r.push(SchemaStep::CompositeUniqueKey);
        r.push(SchemaStep::StampVersion);
    }
    proof {
        assert(r@ =~= migration_steps(version as int));
    }
    r
}

/// A store already at the current version needs no change at all, and every
/// plan ends by recording the current version, so opening a store twice
/// changes it at most once.
pub proof fn lemma_migration_idempotent(version: int)
    ensures
        migration_steps(SCHEMA_VERSION as int) == Seq::<SchemaStep>::empty(),
        migration_steps(version).len() > 0 ==> migration_steps(version).last()
            == SchemaStep::StampVersion,
        forall|i: int|
            0 <= i < migration_steps(version).len() - 1 ==> migration_steps(version)[i]
                != SchemaStep::StampVersion,
{
}

/// Statement that records the current schema version.
pub const STAMP_VERSION_SQL: &'static str = "INSERT OR REPLACE INTO meta (key, value) VALUES ('schema_version', '5')";

/// Query for the recorded schema version.
pub const READ_VERSION_SQL: &'static str = "SELECT value FROM meta WHERE key = 'schema_version'";

/// Creates the current tables and indexes.
pub const CREATE_TABLES_SQL: &'static str = r#"
CREATE TABLE IF NOT EXISTS meta (
    key TEXT PRIMARY KEY,
    value TEXT NOT NULL
);
CREATE TABLE IF NOT EXISTS events (
    uid TEXT NOT NULL,
    calendar_id TEXT NOT NULL,
    summary TEXT NOT NULL,
    location TEXT,
    all_day INTEGER NOT NULL DEFAULT 0,
    start_time TEXT NOT NULL,
    end_time TEXT NOT NULL,
    travel_time TEXT NOT NULL DEFAULT 'None',
    repeat TEXT NOT NULL DEFAULT 'Never',
    repeat_until TEXT,
    exception_dates TEXT NOT NULL DEFAULT '[]',
    invitees TEXT NOT NULL DEFAULT '[]',
    alert TEXT NOT NULL DEFAULT 'None',
    alert_second TEXT,
    attachments TEXT NOT NULL DEFAULT '[]',
    url TEXT,
    notes TEXT,
    created_at TEXT NOT NULL DEFAULT (datetime('now')),
    updated_at TEXT NOT NULL DEFAULT (datetime('now')),
    UNIQUE(calendar_id, uid)
);
CREATE INDEX IF NOT EXISTS idx_events_start_time ON events(start_time);
CREATE INDEX IF NOT EXISTS idx_events_calendar_id ON events(calendar_id);
CREATE INDEX IF NOT EXISTS idx_events_calendar_date ON events(calendar_id, start_time);
"#;

/// Moves the first event table to the full field set (`description` becomes `notes`).
pub const ADD_EVENT_FIELDS_SQL: &'static str = r#"
CREATE TABLE IF NOT EXISTS events_new (
    uid TEXT PRIMARY KEY,
    calendar_id TEXT NOT NULL,
    summary TEXT NOT NULL,
    location TEXT,
    all_day INTEGER NOT NULL DEFAULT 0,
    start_time TEXT NOT NULL,
    end_time TEXT NOT NULL,
    travel_time TEXT NOT NULL DEFAULT 'None',
    repeat TEXT NOT NULL DEFAULT 'Never',
    invitees TEXT NOT NULL DEFAULT '[]',
    alert TEXT NOT NULL DEFAULT 'None',
    alert_second TEXT,
    attachments TEXT NOT NULL DEFAULT '[]',
    url TEXT,
    notes TEXT,
    created_at TEXT NOT NULL DEFAULT (datetime('now')),
    updated_at TEXT NOT NULL DEFAULT (datetime('now'))
);
INSERT INTO events_new (uid, calendar_id, summary, location, all_day, start_time, end_time, notes, created_at, updated_at)
SELECT uid, calendar_id, summary, location, all_day, start_time, end_time, description, created_at, updated_at
FROM events;
DROP TABLE events;
ALTER TABLE events_new RENAME TO events;
CREATE INDEX IF NOT EXISTS idx_events_start_time ON events(start_time);
CREATE INDEX IF NOT EXISTS idx_events_calendar_id ON events(calendar_id);
CREATE INDEX IF NOT EXISTS idx_events_calendar_date ON events(calendar_id, start_time);
"#;

/// Adds the `repeat_until` column.
pub const ADD_REPEAT_UNTIL_SQL: &'static str = "ALTER TABLE events ADD COLUMN repeat_until TEXT;";

/// Adds the `exception_dates` column.
pub const ADD_EXCEPTION_DATES_SQL: &'static str = "ALTER TABLE events ADD COLUMN exception_dates TEXT NOT NULL DEFAULT '[]';";

/// Replaces the key on `uid` by a uniqueness constraint on `(calendar_id, uid)`.
pub const COMPOSITE_UNIQUE_KEY_SQL: &'static str = r#"
CREATE TABLE IF NOT EXISTS events_new (
    uid TEXT NOT NULL,
    calendar_id TEXT NOT NULL,
    summary TEXT NOT NULL,
    location TEXT,
    all_day INTEGER NOT NULL DEFAULT 0,
    start_time TEXT NOT NULL,
    end_time TEXT NOT NULL,
    travel_time TEXT NOT NULL DEFAULT 'None',
    repeat TEXT NOT NULL DEFAULT 'Never',
    repeat_until TEXT,
    exception_dates TEXT NOT NULL DEFAULT '[]',
    invitees TEXT NOT NULL DEFAULT '[]',
    alert TEXT NOT NULL DEFAULT 'None',
    alert_second TEXT,
    attachments TEXT NOT NULL DEFAULT '[]',
    url TEXT,
    notes TEXT,
    created_at TEXT NOT NULL DEFAULT (datetime('now')),
    updated_at TEXT NOT NULL DEFAULT (datetime('now')),
    UNIQUE(calendar_id, uid)
);
INSERT INTO events_new (uid, calendar_id, summary, location, all_day, start_time, end_time,
                        travel_time, repeat, repeat_until, exception_dates, invitees, alert,
                        alert_second, attachments, url, notes, created_at, updated_at)
SELECT uid, calendar_id, summary, location, all_day, start_time, end_time,
       travel_time, repeat, repeat_until, exception_dates, invitees, alert,
       alert_second, attachments, url, notes, created_at, updated_at
FROM events;
DROP TABLE events;
ALTER TABLE events_new RENAME TO events;
CREATE INDEX IF NOT EXISTS idx_events_start_time ON events(start_time);
CREATE INDEX IF NOT EXISTS idx_events_calendar_id ON events(calendar_id);
CREATE INDEX IF NOT EXISTS idx_events_calendar_date ON events(calendar_id, start_time);
"#;

/// Inserts one event row; parameters in the order of [`crate::codec::EventRow`]
/// with the calendar id second: uid, calendar_id, summary, location, all_day,
/// start_time, end_time, travel_time, repeat, repeat_until, exception_dates,
/// invitees, alert, alert_second, attachments, url, notes.
pub const INSERT_EVENT_SQL: &'static str = r#"
INSERT INTO events (uid, calendar_id, summary, location, all_day, start_time, end_time,
                    travel_time, repeat, repeat_until, exception_dates, invitees, alert, alert_second, attachments, url, notes)
VALUES (?2, ?1, ?3, ?4, ?5, ?6, ?7, ?8, ?9, ?10, ?11, ?12, ?13, ?14, ?15, ?16, ?17)
"#;

/// Replaces every field of the row keyed by calendar id (`?1`) and uid
/// (`?2`), with the other parameters as for [`INSERT_EVENT_SQL`].
pub const UPDATE_EVENT_SQL: &'static str = r#"
UPDATE events SET
    summary = ?3, location = ?4, all_day = ?5, start_time = ?6, end_time = ?7,
    travel_time = ?8, repeat = ?9, repeat_until = ?10, exception_dates = ?11,
    invitees = ?12, alert = ?13, alert_second = ?14, attachments = ?15, url = ?16, notes = ?17,
    updated_at = datetime('now')
WHERE calendar_id = ?1 AND uid = ?2
"#;

/// Deletes the row keyed by calendar id (`?1`) and uid (`?2`).
pub const DELETE_EVENT_SQL: &'static str = "DELETE FROM events WHERE calendar_id = ?1 AND uid = ?2";

/// Deletes every row of calendar `?1`.
pub const DELETE_CALENDAR_EVENTS_SQL: &'static str = "DELETE FROM events WHERE calendar_id = ?1";

/// Reads the rows of calendar `?1`, columns in the order of [`crate::codec::EventRow`].
pub const SELECT_CALENDAR_EVENTS_SQL: &'static str = r#"
SELECT uid, summary, location, all_day, start_time, end_time,
       travel_time, repeat, repeat_until, exception_dates, invitees, alert, alert_second,
       attachments, url, notes
FROM events WHERE calendar_id = ?1
"#;

/// The statements that carry out `step`.
pub fn step_sql(step: SchemaStep) -> &'static str {
    match step {
        SchemaStep::CreateTables => CREATE_TABLES_SQL,
        SchemaStep::AddEventFields => ADD_EVENT_FIELDS_SQL,
        SchemaStep::AddRepeatUntil => ADD_REPEAT_UNTIL_SQL,
        SchemaStep::AddExceptionDates => ADD_EXCEPTION_DATES_SQL,
        SchemaStep::CompositeUniqueKey => COMPOSITE_UNIQUE_KEY_SQL,
        SchemaStep::StampVersion => STAMP_VERSION_SQL,
    }
}

} // verus!
