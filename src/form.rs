//! The fields of the event editor and the event they describe.

use vstd::prelude::*;
use crate::date::{Date, Timestamp, SECONDS_PER_DAY};
use crate::event::{
    AlertTime, CalendarEvent, EventView, RepeatFrequency, TravelTime, opt_text, texts,
};
use crate::text::{trim, trimmed};

verus! {

/// Start of the day for an event whose start time is not given.
pub const DEFAULT_START_SECONDS: u32 = 9 * 3600;

/// End time for an event whose end time is not given.
pub const DEFAULT_END_SECONDS: u32 = 10 * 3600;

/// What the event editor holds when it is confirmed.
#[derive(Debug)]
pub struct EventForm {
    pub title: String,
    pub location: String,
    pub all_day: bool,
    pub start_date: Date,
    /// Seconds since midnight, if a start time was picked.
    pub start_time: Option<u32>,
    pub end_date: Date,
    /// Seconds since midnight, if an end time was picked.
    pub end_time: Option<u32>,
    pub travel_time: TravelTime,
    pub repeat: RepeatFrequency,
    pub invitees: Vec<String>,
    pub alert: AlertTime,
    pub alert_second: Option<AlertTime>,
    pub attachments: Vec<String>,
    pub url: String,
    pub notes: String,
}

/// An empty text stands for no value.
pub open spec fn text_or_none(s: Seq<char>) -> Option<Seq<char>> {
    if s.len() == 0 {
        None
    } else {
        Some(s)
    }
}

fn present(s: String) -> (r: Option<String>)
    ensures
        opt_text(r) == text_or_none(s@),
{
    if s.as_str().unicode_len() == 0 {
        None
    } else {
        Some(s)
    }
}

impl EventForm {
    /// The event the editor describes, under `uid`: the trimmed title is
    /// required; an all-day event runs from midnight of its first day to the
    /// last second of its last day; a timed one at its picked times, 09:00
    /// and 10:00 when none were picked; empty location and link and blank
    /// notes are absent.
    pub fn into_event(self, uid: String) -> (r: Option<CalendarEvent>)
        requires
            self.start_time matches Some(t) ==> t < SECONDS_PER_DAY,
            self.end_time matches Some(t) ==> t < SECONDS_PER_DAY,
        ensures
            trimmed(self.title@).len() == 0 <==> r is None,
            r matches Some(e) ==> ({
                let start = if self.all_day { 0 } else { match self.start_time { Some(t) => t, None => DEFAULT_START_SECONDS } };
                let end = if self.all_day { (SECONDS_PER_DAY - 1) as u32 } else { match self.end_time { Some(t) => t, None => DEFAULT_END_SECONDS } };
                e@ == EventView {
                    uid: uid@,
                    summary: trimmed(self.title@),
                    location: text_or_none(self.location@),
                    all_day: self.all_day,
                    start: Timestamp { date: self.start_date, seconds: start },
                    end: Timestamp { date: self.end_date, seconds: end },
                    travel_time: self.travel_time,
                    repeat: self.repeat@,
                    repeat_until: None,
                    exception_dates: Seq::empty(),
                    invitees: texts(self.invitees@),
                    alert: self.alert,
                    alert_second: self.alert_second,
                    attachments: texts(self.attachments@),
                    url: text_or_none(self.url@),
                    notes: if trimmed(self.notes@).len() == 0 { None } else { Some(self.notes@) },
                }
            }),
    {
        let title = trim(self.title.as_str());
        if title.unicode_len() == 0 {
            return None;
        }
        let summary = String::from_str(title);
        let (start, end) = if self.all_day {
            (0, SECONDS_PER_DAY - 1)
        } else {
            (
                match self.start_time {
                    Some(t) => t,
                    None => DEFAULT_START_SECONDS,
                },
                match self.end_time {
                    Some(t) => t,
                    None => DEFAULT_END_SECONDS,
                },
            )
        };
        let notes = if trim(self.notes.as_str()).unicode_len() == 0 {
            None
        } else {
            Some(self.notes)
        };
        let exception_dates: Vec<Date> = Vec::new();
        proof {
            assert(exception_dates@ =~= Seq::<Date>::empty());
        }
        Some(CalendarEvent {
            uid,
            summary,
            location: present(self.location),
            all_day: self.all_day,
            start: Timestamp { date: self.start_date, seconds: start },
            end: Timestamp { date: self.end_date, seconds: end },
            travel_time: self.travel_time,
            repeat: self.repeat,
            repeat_until: None,
            exception_dates,
            invitees: self.invitees,
            alert: self.alert,
            alert_second: self.alert_second,
            attachments: self.attachments,
            url: present(self.url),
            notes,
        })
    }
}

} // verus!
