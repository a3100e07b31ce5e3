//! Reading events from iCalendar text.
//!
//! The text is parsed by the `icalendar` crate; each event it finds is taken
//! over as plain values ([`IcalEvent`]), and the checks and the conversion to
//! a [`CalendarEvent`] are made on those values.

use vstd::prelude::*;
use vstd::string::StringSliceAdditionalSpecFns;
use chrono::Datelike;
use chrono::Timelike;
use icalendar::Component;
use icalendar::EventLike;
use crate::date::{Date, Timestamp, date_le, timestamp_le, add_days, SECONDS_PER_DAY};
use crate::event::{AlertTime, CalendarEvent, EventView, RepeatFrequency, TravelTime, events_view, opt_text};
use crate::text::{contains_text, has_infix, has_prefix, starts_with};

verus! {

#[verifier::external_type_specification]
#[verifier::external_body]
pub struct ExIcalEvent(icalendar::Event);

#[verifier::external_type_specification]
#[verifier::external_body]
pub struct ExDatePerhapsTime(icalendar::DatePerhapsTime);

#[verifier::external_type_specification]
#[verifier::external_body]
pub struct ExNaiveDateTime(chrono::NaiveDateTime);

/// A start or end property of an iCalendar event.
#[derive(Clone, Copy, Debug, PartialEq, Eq, Structural)]
pub enum IcalMoment {
    /// A whole day.
    Date(Date),
    /// A time in UTC.
    Utc(Timestamp),
    /// A local time without a zone.
    Floating(Timestamp),
    /// A local time in a named zone.
    Zoned(Timestamp),
}

/// What this library reads of one iCalendar event.
#[derive(Debug)]
pub struct IcalEvent {
    pub uid: Option<String>,
    pub summary: Option<String>,
    pub start: Option<IcalMoment>,
    pub end: Option<IcalMoment>,
    pub location: Option<String>,
    pub description: Option<String>,
    pub url: Option<String>,
}

/// The plain values of an [`IcalEvent`].
pub ghost struct IcalEventView {
    pub uid: Option<Seq<char>>,
    pub summary: Option<Seq<char>>,
    pub start: Option<IcalMoment>,
    pub end: Option<IcalMoment>,
    pub location: Option<Seq<char>>,
    pub description: Option<Seq<char>>,
    pub url: Option<Seq<char>>,
}

impl View for IcalEvent {
    type V = IcalEventView;

    open spec fn view(&self) -> IcalEventView {
        IcalEventView {
            uid: opt_text(self.uid),
            summary: opt_text(self.summary),
            start: self.start,
            end: self.end,
            location: opt_text(self.location),
            description: opt_text(self.description),
            url: opt_text(self.url),
        }
    }
}

pub open spec fn ical_events_view(v: Seq<IcalEvent>) -> Seq<IcalEventView> {
    v.map_values(|e: IcalEvent| e@)
}

/// The events that the `icalendar` crate reads from a text, each as the plain
/// values of [`IcalEvent`], in document order; `None` when it cannot parse
/// the text.
pub uninterp spec fn ical_events_of(s: Seq<char>) -> Option<Seq<IcalEventView>>;

/// Why an import or export failed.
#[derive(Debug)]
pub enum ExportError {
    IoError(String),
    FormatError(String),
    ParseError(String),
    ValidationError(String),
    CalendarNotFound(String),
}

impl ExportError {
    /// The text shown for this error.
    pub fn message(&self) -> (r: String)
        ensures
            r@ == match self {
                ExportError::IoError(m) => "I/O error: "@ + m@,
                ExportError::FormatError(m) => "Format error: "@ + m@,
                ExportError::ParseError(m) => "Parse error: "@ + m@,
                ExportError::ValidationError(m) => "Validation error: "@ + m@,
                ExportError::CalendarNotFound(id) => "Calendar not found: "@ + id@,
            },
    {
        match self {
            ExportError::IoError(m) => String::from_str("I/O error: ").concat(m.as_str()),
            ExportError::FormatError(m) => String::from_str("Format error: ").concat(m.as_str()),
            ExportError::ParseError(m) => String::from_str("Parse error: ").concat(m.as_str()),
            ExportError::ValidationError(m) => String::from_str("Validation error: ").concat(m.as_str()),
            ExportError::CalendarNotFound(id) => String::from_str("Calendar not found: ").concat(id.as_str()),
        }
    }
}

/// Relies on `str::len`: the length of the text in UTF-8 bytes.
#[verifier::external_body]
fn byte_len(s: &str) -> (r: usize)
    ensures
        r == s.spec_bytes().len(),
{
    s.len()
}

/// Relies on icalendar's `Calendar::from_str` and `CalendarComponent::as_event`:
/// the events of the text, each taken over as plain values, or the parser's
/// message.
#[verifier::external_body]
fn parse_ical_events(s: &str) -> (r: Result<Vec<IcalEvent>, String>)
    ensures
        match r {
            Ok(v) => ical_events_of(s@) == Some(ical_events_view(v@)),
            Err(_) => ical_events_of(s@) is None,
        },
{
    let calendar = s.parse::<icalendar::Calendar>()?;
    Ok(calendar.components.iter().filter_map(|c| c.as_event()).map(|e| fields_of(e)).collect())
}

/// Relies on chrono's `NaiveDateTime` accessors: date and seconds since midnight.
#[verifier::external_body]
fn instant_of(t: chrono::NaiveDateTime) -> Timestamp {
    Timestamp {
        date: Date { year: t.year(), month: t.month(), day: t.day() },
        seconds: t.num_seconds_from_midnight(),
    }
}

/// Relies on icalendar's `DatePerhapsTime` and `CalendarDateTime` variants.
#[verifier::external_body]
fn moment_of(p: icalendar::DatePerhapsTime) -> IcalMoment {
    match p {
        icalendar::DatePerhapsTime::Date(d) => IcalMoment::Date(Date { year: d.year(), month: d.month(), day: d.day() }),
        icalendar::DatePerhapsTime::DateTime(icalendar::CalendarDateTime::Utc(t)) => IcalMoment::Utc(instant_of(t.naive_utc())),
        icalendar::DatePerhapsTime::DateTime(icalendar::CalendarDateTime::Floating(t)) => IcalMoment::Floating(instant_of(t)),
        icalendar::DatePerhapsTime::DateTime(icalendar::CalendarDateTime::WithTimezone { date_time, .. }) => IcalMoment::Zoned(instant_of(date_time)),
    }
}

/// Relies on icalendar's `EventLike::get_start`.
#[verifier::external_body]
fn event_start(e: &icalendar::Event) -> Option<icalendar::DatePerhapsTime> {
    e.get_start()
}

/// Relies on icalendar's `EventLike::get_end`.
#[verifier::external_body]
fn event_end(e: &icalendar::Event) -> Option<icalendar::DatePerhapsTime> {
    e.get_end()
}

/// Relies on icalendar's `Component::get_uid`.
#[verifier::external_body]
fn event_uid(e: &icalendar::Event) -> Option<String> {
    e.get_uid().map(|s| s.to_string())
}

/// Relies on icalendar's `Component::get_summary`.
#[verifier::external_body]
fn event_summary(e: &icalendar::Event) -> Option<String> {
    e.get_summary().map(|s| s.to_string())
}

/// Relies on icalendar's `Component::get_description`.
#[verifier::external_body]
fn event_description(e: &icalendar::Event) -> Option<String> {
    e.get_description().map(|s| s.to_string())
}

/// Relies on icalendar's `Component::get_url`.
#[verifier::external_body]
fn event_url(e: &icalendar::Event) -> Option<String> {
    e.get_url().map(|s| s.to_string())
}

/// Relies on icalendar's `EventLike::get_location`.
#[verifier::external_body]
fn event_location(e: &icalendar::Event) -> Option<String> {
    e.get_location().map(|s| s.to_string())
}

fn moment_opt(p: Option<icalendar::DatePerhapsTime>) -> Option<IcalMoment> {
    match p {
        Some(x) => Some(moment_of(x)),
        None => None,
    }
}

/// The plain values of a parsed event.
fn fields_of(e: &icalendar::Event) -> IcalEvent {
    IcalEvent {
        uid: event_uid(e),
        summary: event_summary(e),
        start: moment_opt(event_start(e)),
        end: moment_opt(event_end(e)),
        location: event_location(e),
        description: event_description(e),
        url: event_url(e),
    }
}

pub open spec fn timestamp_lt(a: Timestamp, b: Timestamp) -> bool {
    timestamp_le(a, b) && a != b
}

/// An end that RFC 5545 does not allow: before the start for two UTC or two
/// floating times, or before the start day for two dates.
pub open spec fn end_before_start(start: IcalMoment, end: IcalMoment) -> bool {
    match (start, end) {
        (IcalMoment::Utc(s), IcalMoment::Utc(e)) => !timestamp_lt(s, e),
        (IcalMoment::Floating(s), IcalMoment::Floating(e)) => !timestamp_lt(s, e),
        (IcalMoment::Date(s), IcalMoment::Date(e)) => !date_le(s, e),
        _ => false,
    }
}

/// The event carries a uid, a start, and an end not before its start.
pub open spec fn event_is_valid(uid: Option<Seq<char>>, start: Option<IcalMoment>, end: Option<IcalMoment>) -> bool {
    &&& uid is Some
    &&& start is Some
    &&& (end matches Some(e) ==> !end_before_start(start->0, e))
}

fn timestamp_before(a: Timestamp, b: Timestamp) -> (r: bool)
    ensures
        r == timestamp_lt(a, b),
{
    let same_day = a.date == b.date;
    (a.date.at_or_before(&b.date) && !same_day) || (same_day && a.seconds < b.seconds)
}

fn validate_event(e: &IcalEvent) -> (r: Result<(), ExportError>)
    ensures
        r is Ok <==> event_is_valid(opt_text(e.uid), e.start, e.end),
        r matches Err(x) ==> x is ValidationError,
{
    let uid = match &e.uid {
        Some(u) => u,
        None => {
            return Err(ExportError::ValidationError(String::from_str("Event missing required UID property (RFC 5545 section 3.8.4.7)")));
        },
    };
    let start = match e.start {
        Some(s) => s,
        None => {
            return Err(ExportError::ValidationError(String::from_str("Event uid=").concat(uid.as_str()).concat(" missing required DTSTART property (RFC 5545 section 3.8.2.4)")));
        },
    };
    if let Some(end) = e.end {
        let ok = match (start, end) {
            (IcalMoment::Utc(s), IcalMoment::Utc(t)) => timestamp_before(s, t),
            (IcalMoment::Floating(s), IcalMoment::Floating(t)) => timestamp_before(s, t),
            (IcalMoment::Date(s), IcalMoment::Date(t)) => s.at_or_before(&t),
            _ => true,
        };
        if !ok {
            return Err(ExportError::ValidationError(String::from_str("Event uid=").concat(uid.as_str()).concat(" has DTEND before DTSTART")));
        }
    }
    Ok(())
}

/// Every event carries a uid, a start, and an end not before its start.
pub open spec fn events_valid(evs: Seq<IcalEventView>) -> bool {
    forall|i: int| 0 <= i < evs.len() ==> event_is_valid(#[trigger] evs[i].uid, evs[i].start, evs[i].end)
}

/// The instant a start or end property stands for: times are read as UTC,
/// a date as its midnight.
pub open spec fn moment_instant(m: IcalMoment) -> Timestamp {
    match m {
        IcalMoment::Date(d) => Timestamp { date: d, seconds: 0 },
        IcalMoment::Utc(t) => t,
        IcalMoment::Floating(t) => t,
        IcalMoment::Zoned(t) => t,
    }
}

/// One hour after `t`.
pub open spec fn hour_later(t: Timestamp) -> Timestamp {
    if t.seconds + 3600 < SECONDS_PER_DAY {
        Timestamp { date: t.date, seconds: (t.seconds + 3600) as u32 }
    } else {
        Timestamp { date: crate::date::days_after(t.date, 1), seconds: (t.seconds + 3600 - SECONDS_PER_DAY) as u32 }
    }
}

/// The event that an iCalendar event becomes: uid, summary and start are
/// required, a missing end is one hour after the start, a date start makes
/// an all-day event, and the times must be ones the library can hold.
pub open spec fn imported_event(
    uid: Option<Seq<char>>,
    summary: Option<Seq<char>>,
    start: Option<IcalMoment>,
    end: Option<IcalMoment>,
    location: Option<Seq<char>>,
    description: Option<Seq<char>>,
    url: Option<Seq<char>>,
) -> Option<EventView> {
    if uid is None || summary is None || start is None {
        None
    } else {
        let s = moment_instant(start->0);
        let e = match end {
            Some(m) => moment_instant(m),
            None => hour_later(s),
        };
        if !s.wf() || !e.wf() || !timestamp_le(s, e) {
            None
        } else {
            Some(EventView {
                uid: uid->0,
                summary: summary->0,
                location,
                all_day: start->0 is Date,
                start: s,
                end: e,
                travel_time: TravelTime::NoTravel,
                repeat: crate::event::RepeatRule::Never,
                repeat_until: None,
                exception_dates: Seq::empty(),
                invitees: Seq::empty(),
                alert: AlertTime::NoAlert,
                alert_second: None,
                attachments: Seq::empty(),
                url,
                notes: description,
            })
        }
    }
}

/// The event that `e` becomes, if any.
pub open spec fn imported_of(e: IcalEventView) -> Option<EventView> {
    imported_event(e.uid, e.summary, e.start, e.end, e.location, e.description, e.url)
}

/// The events that `evs` become, in order; those that cannot be taken over
/// are left out.
pub open spec fn imported_events(evs: Seq<IcalEventView>) -> Seq<EventView>
    decreases evs.len(),
{
    if evs.len() == 0 {
        Seq::empty()
    } else {
        imported_events(evs.drop_last()) + match imported_of(evs.last()) {
            Some(e) => seq![e],
            None => Seq::empty(),
        }
    }
}

fn instant(m: IcalMoment) -> (r: Timestamp)
    ensures
        r == moment_instant(m),
{
    match m {
        IcalMoment::Date(d) => Timestamp { date: d, seconds: 0 },
        IcalMoment::Utc(t) => t,
        IcalMoment::Floating(t) => t,
        IcalMoment::Zoned(t) => t,
    }
}

fn timestamp_not_after(a: Timestamp, b: Timestamp) -> (r: bool)
    ensures
        r == timestamp_le(a, b),
{
    let same_day = a.date == b.date;
    (a.date.at_or_before(&b.date) && !same_day) || (same_day && a.seconds <= b.seconds)
}

fn clone_opt(o: &Option<String>) -> (r: Option<String>)
    ensures
        opt_text(r) == opt_text(*o),
{
    crate::event::duplicate_text(o)
}

/// The event made of `e`, or why it cannot be made.
pub fn event_from_fields(e: &IcalEvent) -> (r: Result<CalendarEvent, ExportError>)
    ensures
        match imported_event(
            opt_text(e.uid),
            opt_text(e.summary),
            e.start,
            e.end,
            opt_text(e.location),
            opt_text(e.description),
            opt_text(e.url),
        ) {
            Some(v) => r matches Ok(x) && x@ == v,
            None => r matches Err(x) && x is ParseError,
        },
{
    let uid = match &e.uid {
        Some(u) => u.clone(),
        None => {
            return Err(ExportError::ParseError(String::from_str("Event missing UID")));
        },
    };
    let summary = match &e.summary {
        Some(s) => s.clone(),
        None => {
            return Err(ExportError::ParseError(String::from_str("Event uid=").concat(uid.as_str()).concat(" missing summary")));
        },
    };
    let start_moment = match e.start {
        Some(m) => m,
        None => {
            return Err(ExportError::ParseError(String::from_str("Event uid=").concat(uid.as_str()).concat(" missing start time")));
        },
    };
    let start = instant(start_moment);
    if !start.is_valid() {
        return Err(ExportError::ParseError(String::from_str("Invalid date")));
    }
    let end = match e.end {
        Some(m) => instant(m),
        None => {
            if start.seconds + 3600 < SECONDS_PER_DAY {
                Timestamp { date: start.date, seconds: start.seconds + 3600 }
            } else {
                Timestamp { date: add_days(start.date, 1), seconds: start.seconds + 3600 - SECONDS_PER_DAY }
            }
        },
    };
    if !end.is_valid() || !timestamp_not_after(start, end) {
        return Err(ExportError::ParseError(String::from_str("Invalid end date")));
    }
    let all_day = match start_moment {
        IcalMoment::Date(_) => true,
        _ => false,
    };
    let invitees: Vec<String> = Vec::new();
    let attachments: Vec<String> = Vec::new();
    let exception_dates: Vec<Date> = Vec::new();
    proof {
        assert(crate::event::texts(invitees@) =~= Seq::<Seq<char>>::empty());
        assert(crate::event::texts(attachments@) =~= Seq::<Seq<char>>::empty());
        assert(exception_dates@ =~= Seq::<Date>::empty());
    }
    Ok(CalendarEvent {
        uid,
        summary,
        location: clone_opt(&e.location),
        all_day,
        start,
        end,
        travel_time: TravelTime::NoTravel,
        repeat: RepeatFrequency::Never,
        repeat_until: None,
        exception_dates,
        invitees,
        alert: AlertTime::NoAlert,
        alert_second: None,
        attachments,
        url: clone_opt(&e.url),
        notes: clone_opt(&e.description),
    })
}

/// Known producers of iCalendar files, by the text of their `PRODID` line.
pub open spec fn producer_of(line: Seq<char>) -> Option<Seq<char>> {
    if has_infix(line, "Google"@) {
        Some("google"@)
    } else if has_infix(line, "Microsoft"@) || has_infix(line, "Outlook"@) {
        Some("outlook"@)
    } else if has_infix(line, "Apple"@) || has_infix(line, "iCal"@) || has_infix(line, "macOS"@) {
        Some("apple"@)
    } else if has_infix(line, "Mozilla"@) || has_infix(line, "Thunderbird"@) {
        Some("thunderbird"@)
    } else if has_infix(line, "Yahoo"@) {
        Some("yahoo"@)
    } else {
        None
    }
}

/// Position of the first line break in `s`, or its length.
pub open spec fn line_end(s: Seq<char>) -> int
    decreases s.len(),
{
    if s.len() == 0 {
        0
    } else if s[0] == '\n' {
        0
    } else {
        1 + line_end(s.subrange(1, s.len() as int))
    }
}

/// The producer named by the first `PRODID:` line of `s` that names a known one.
pub open spec fn dialect_of(s: Seq<char>) -> Option<Seq<char>>
    decreases s.len(),
{
    let e = line_end(s);
    let line = s.subrange(0, e);
    let here = if has_prefix(line, "PRODID:"@) { producer_of(line) } else { None };
    if here is Some {
        here
    } else if 0 <= e < s.len() {
        dialect_of(s.subrange(e + 1, s.len() as int))
    } else {
        None
    }
}

proof fn lemma_line_end_unique(s: Seq<char>, k: int)
    requires
        0 <= k <= s.len(),
        forall|i: int| 0 <= i < k ==> s[i] != '\n',
        k < s.len() ==> s[k] == '\n',
    ensures
        line_end(s) == k,
    decreases s.len(),
{
    if s.len() > 0 && s[0] != '\n' {
        let t = s.subrange(1, s.len() as int);
        lemma_line_end_unique(t, k - 1);
    }
}

fn producer(line: &str) -> (r: Option<&'static str>)
    ensures
        match r {
            Some(x) => producer_of(line@) == Some(x@),
            None => producer_of(line@) is None,
        },
{
    if contains_text(line, "Google") {
        Some("google")
    } else if contains_text(line, "Microsoft") || contains_text(line, "Outlook") {
        Some("outlook")
    } else if contains_text(line, "Apple") || contains_text(line, "iCal") || contains_text(line, "macOS") {
        Some("apple")
    } else if contains_text(line, "Mozilla") || contains_text(line, "Thunderbird") {
        Some("thunderbird")
    } else if contains_text(line, "Yahoo") {
        Some("yahoo")
    } else {
        None
    }
}

/// Some event of `existing` has the uid `uid`.
pub open spec fn uid_present(existing: Seq<EventView>, uid: Seq<char>) -> bool {
    exists|i: int| 0 <= i < existing.len() && #[trigger] existing[i].uid == uid
}

/// The events of `incoming`, in order, whose uid no event of `existing` has.
pub open spec fn events_to_import(existing: Seq<EventView>, incoming: Seq<EventView>) -> Seq<EventView>
    decreases incoming.len(),
{
    if incoming.len() == 0 {
        Seq::empty()
    } else {
        events_to_import(existing, incoming.drop_last()) + if uid_present(existing, incoming.last().uid) {
            Seq::empty()
        } else {
            seq![incoming.last()]
        }
    }
}

fn has_uid(existing: &Vec<CalendarEvent>, uid: &str) -> (r: bool)
    ensures
        r == uid_present(events_view(existing@), uid@),
{
    let ghost ev = events_view(existing@);
    let mut i: usize = 0;
    while i < existing.len()
        invariant
            i <= existing.len(),
            ev == events_view(existing@),
            forall|j: int| 0 <= j < i ==> ev[j].uid != uid@,
        decreases existing.len() - i,
    {
        if crate::text::text_eq(existing[i].uid.as_str(), uid) {
            assert(ev[i as int].uid == uid@);
            return true;
        }
        i = i + 1;
    }
    false
}

/// Operations on iCalendar data.
pub struct ExportHandler;

impl ExportHandler {
    /// The producer of an iCalendar text, from its `PRODID` line: `google`,
    /// `outlook`, `apple`, `thunderbird` or `yahoo`.
    pub fn detect_dialect(ical_str: &str) -> (r: Option<&'static str>)
        ensures
            match r {
                Some(x) => dialect_of(ical_str@) == Some(x@),
                None => dialect_of(ical_str@) is None,
            },
    {
        let n = ical_str.unicode_len();
        let mut pos: usize = 0;
        proof {
            assert(ical_str@.subrange(0, n as int) =~= ical_str@);
        }
        while pos <= n
            invariant
                pos <= n,
                n == ical_str@.len(),
                dialect_of(ical_str@) == dialect_of(ical_str@.subrange(pos as int, n as int)),
            decreases n + 1 - pos,
        {
            let ghost rest = ical_str@.subrange(pos as int, n as int);
            let mut e = pos;
            while e < n && ical_str.get_char(e) != '\n'
                invariant
                    pos <= e <= n,
                    n == ical_str@.len(),
                    forall|i: int| pos <= i < e ==> ical_str@[i] != '\n',
                decreases n - e,
            {
                e = e + 1;
            }
            proof {
                assert forall|i: int| 0 <= i < e - pos implies rest[i] != '\n' by {
                    assert(rest[i] == ical_str@[pos + i]);
                }
                lemma_line_end_unique(rest, e - pos);
            }
            let line = ical_str.substring_char(pos, e);
            proof {
                assert(line@ =~= rest.subrange(0, e - pos));
                reveal_strlit("PRODID:");
            }
            if starts_with(line, "PRODID:") {
                if let Some(p) = producer(line) {
                    return Some(p);
                }
            }
            if e >= n {
                return None;
            }
            proof {
                assert(rest.subrange(e - pos + 1, rest.len() as int) =~= ical_str@.subrange(e + 1, n as int));
            }
            pos = e + 1;
        }
        None
    }

    /// Whether each event carries a uid, a start, and an end not before its
    /// start; the first offending event gives the error.
    pub fn validate_events(events: &Vec<IcalEvent>) -> (r: Result<(), ExportError>)
        ensures
            r is Ok <==> events_valid(ical_events_view(events@)),
            r matches Err(x) ==> x is ValidationError,
    {
        let ghost evs = ical_events_view(events@);
        let mut i: usize = 0;
        while i < events.len()
            invariant
                i <= events.len(),
                evs == ical_events_view(events@),
                forall|j: int| 0 <= j < i ==> event_is_valid(#[trigger] evs[j].uid, evs[j].start, evs[j].end),
            decreases events.len() - i,
        {
            match validate_event(&events[i]) {
                Ok(()) => {},
                Err(x) => {
                    assert(!event_is_valid(evs[i as int].uid, evs[i as int].start, evs[i as int].end));
                    return Err(x);
                },
            }
            i = i + 1;
        }
        Ok(())
    }

    /// The events that `events` become, in order; those without uid, summary
    /// or start, or with times the library cannot hold, are skipped.
    pub fn events_from_fields(events: &Vec<IcalEvent>) -> (r: Vec<CalendarEvent>)
        ensures
            events_view(r@) == imported_events(ical_events_view(events@)),
            forall|i: int| 0 <= i < r@.len() ==> (#[trigger] r@[i])@.wf(),
    {
        let ghost evs = ical_events_view(events@);
        let mut r: Vec<CalendarEvent> = Vec::new();
        let mut i: usize = 0;
        proof {
            assert(evs.subrange(0, 0) =~= Seq::<IcalEventView>::empty());
            assert(events_view(r@) =~= Seq::<EventView>::empty());
        }
        while i < events.len()
            invariant
                i <= events.len(),
                evs == ical_events_view(events@),
                events_view(r@) == imported_events(evs.subrange(0, i as int)),
                forall|j: int| 0 <= j < r@.len() ==> (#[trigger] r@[j])@.wf(),
            decreases events.len() - i,
        {
            let ghost before = events_view(r@);
            proof {
                assert(evs.subrange(0, i + 1).drop_last() =~= evs.subrange(0, i as int));
                assert(evs.subrange(0, i + 1).last() == events@[i as int]@);
            }
            match event_from_fields(&events[i]) {
                Ok(x) => {
                    r.push(x);
                    proof {
                        assert(events_view(r@) =~= before.push(x@));
                    }
                },
                Err(_) => {
                    proof {
                        assert(events_view(r@) =~= before + Seq::<EventView>::empty());
                    }
                },
            }
            proof {
                assert(events_view(r@) =~= imported_events(evs.subrange(0, i + 1)));
            }
            i = i + 1;
        }
        proof {
            assert(evs.subrange(0, events.len() as int) =~= evs);
        }
        r
    }

    /// Checks the text of an iCalendar file against RFC 5545: long enough,
    /// wrapped in `VCALENDAR`, with a `VERSION`, parseable, and with every
    /// event carrying a uid, a start, and an end not before its start.
    pub fn validate_ical_file(contents: &str) -> (r: Result<(), ExportError>)
        ensures
            r is Ok <==> (contents.spec_bytes().len() >= 50 && has_infix(contents@, "BEGIN:VCALENDAR"@)
                && has_infix(contents@, "END:VCALENDAR"@) && has_infix(contents@, "VERSION:"@) && (
            ical_events_of(contents@) matches Some(evs) && events_valid(evs))),
            r matches Err(x) ==> x is ValidationError,
    {
        if byte_len(contents) < 50 {
            return Err(ExportError::ValidationError(String::from_str("File too short to be valid iCalendar")));
        }
        if !contains_text(contents, "BEGIN:VCALENDAR") || !contains_text(contents, "END:VCALENDAR") {
            return Err(ExportError::ValidationError(String::from_str("Missing required VCALENDAR wrapper (RFC 5545 section 3.4)")));
        }
        if !contains_text(contents, "VERSION:") {
            return Err(ExportError::ValidationError(String::from_str("Missing required VERSION property (RFC 5545 section 3.7.4)")));
        }
        match parse_ical_events(contents) {
            Ok(events) => Self::validate_events(&events),
            Err(e) => Err(ExportError::ValidationError(String::from_str("Invalid iCalendar structure: ").concat(e.as_str()))),
        }
    }

    /// The events of `incoming` that a calendar holding `existing` does not
    /// have yet (by uid), in order; the others are duplicates and skipped.
    pub fn new_events(existing: &Vec<CalendarEvent>, incoming: Vec<CalendarEvent>) -> (r: Vec<CalendarEvent>)
        ensures
            events_view(r@) == events_to_import(events_view(existing@), events_view(incoming@)),
    {
        let ghost inc = events_view(incoming@);
        let ghost ex = events_view(existing@);
        let mut r: Vec<CalendarEvent> = Vec::new();
        let mut i: usize = 0;
        proof {
            assert(inc.subrange(0, 0) =~= Seq::<EventView>::empty());
            assert(events_view(r@) =~= Seq::<EventView>::empty());
        }
        while i < incoming.len()
            invariant
                i <= incoming.len(),
                inc == events_view(incoming@),
                ex == events_view(existing@),
                events_view(r@) == events_to_import(ex, inc.subrange(0, i as int)),
            decreases incoming.len() - i,
        {
            let ghost before = events_view(r@);
            proof {
                assert(inc.subrange(0, i + 1).drop_last() =~= inc.subrange(0, i as int));
                assert(inc.subrange(0, i + 1).last() == incoming@[i as int]@);
            }
            if !has_uid(existing, incoming[i].uid.as_str()) {
                r.push(incoming[i].duplicate());
                proof {
                    assert(events_view(r@) =~= before.push(incoming@[i as int]@));
                }
            }
            proof {
                assert(events_view(r@) =~= events_to_import(ex, inc.subrange(0, i + 1)));
            }
            i = i + 1;
        }
        proof {
            assert(inc.subrange(0, incoming.len() as int) =~= inc);
        }
        r
    }

    /// The events of an iCalendar file's text, in document order; events
    /// that cannot be taken over (see [`event_from_fields`]) are skipped.
    pub fn parse_ical_file(contents: &str) -> (r: Result<Vec<CalendarEvent>, ExportError>)
        ensures
            r is Err <==> ical_events_of(contents@) is None,
            r matches Err(x) ==> x is ParseError,
            ical_events_of(contents@) matches Some(evs) ==> (r matches Ok(v) && events_view(v@)
                == imported_events(evs)),
            r matches Ok(v) ==> forall|i: int| 0 <= i < v@.len() ==> (#[trigger] v@[i])@.wf(),
    {
        match parse_ical_events(contents) {
            Ok(events) => Ok(Self::events_from_fields(&events)),
            Err(e) => Err(ExportError::ParseError(e)),
        }
    }
}

} // verus!
