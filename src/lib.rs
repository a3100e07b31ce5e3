//! Calendar event engine: civil dates and timestamps, recurrence expansion,
//! per-occurrence identifiers, the stored-row codec, schema migration
//! planning and the display aggregation used by the month and week views;
//! with the models around them: the month grid and the week, navigation
//! between periods, dragging events, calendar records, settings, locale
//! conventions and reading iCalendar files.

pub mod date;
pub mod event;
pub mod occurrence;
pub mod recurrence;
pub mod text;
pub mod json;
pub mod codec;
pub mod schema;
pub mod display;
pub mod views;
pub mod display_mode;
pub mod menu;
pub mod calendar_state;
pub mod calendar_handler;
pub mod settings;
pub mod locale;
pub mod export;
pub mod drag;
pub mod week_state;
pub mod form;
