//! The master event record and its enumerated fields.

use vstd::prelude::*;
use crate::date::{Date, Timestamp, timestamp_le, SECONDS_PER_DAY};
use crate::text::{trim, trimmed};

verus! {

/// Time set aside for travelling to an event.
#[derive(Clone, Copy, Debug, PartialEq, Eq, Structural, Hash)]
pub enum TravelTime {
    NoTravel,
    FiveMinutes,
    FifteenMinutes,
    ThirtyMinutes,
    OneHour,
    TwoHours,
}

/// When a reminder fires, relative to the start of the event.
#[derive(Clone, Copy, Debug, PartialEq, Eq, Structural, Hash)]
pub enum AlertTime {
    NoAlert,
    AtTime,
    FiveMinutes,
    TenMinutes,
    FifteenMinutes,
    ThirtyMinutes,
    OneHour,
    TwoHours,
    OneDay,
    TwoDays,
    OneWeek,
}

/// How a master event repeats. `Custom` keeps a raw rule that is stored but
/// never expanded.
#[derive(Debug, PartialEq, Eq, Hash)]
pub enum RepeatFrequency {
    Never,
    Daily,
    Weekly,
    Biweekly,
    Monthly,
    Yearly,
    Custom(String),
}

/// The mathematical value of a [`RepeatFrequency`].
pub ghost enum RepeatRule {
    Never,
    Daily,
    Weekly,
    Biweekly,
    Monthly,
    Yearly,
    Custom(Seq<char>),
}

impl View for RepeatFrequency {
    type V = RepeatRule;

    open spec fn view(&self) -> RepeatRule {
        match self {
            RepeatFrequency::Never => RepeatRule::Never,
            RepeatFrequency::Daily => RepeatRule::Daily,
            RepeatFrequency::Weekly => RepeatRule::Weekly,
            RepeatFrequency::Biweekly => RepeatRule::Biweekly,
            RepeatFrequency::Monthly => RepeatRule::Monthly,
            RepeatFrequency::Yearly => RepeatRule::Yearly,
            RepeatFrequency::Custom(s) => RepeatRule::Custom(s@),
        }
    }
}

impl RepeatFrequency {
    /// A copy with the same value.
    pub fn duplicate(&self) -> (r: RepeatFrequency)
        ensures
            r@ == self@,
    {
        match self {
            RepeatFrequency::Never => RepeatFrequency::Never,
            RepeatFrequency::Daily => RepeatFrequency::Daily,
            RepeatFrequency::Weekly => RepeatFrequency::Weekly,
            RepeatFrequency::Biweekly => RepeatFrequency::Biweekly,
            RepeatFrequency::Monthly => RepeatFrequency::Monthly,
            RepeatFrequency::Yearly => RepeatFrequency::Yearly,
            RepeatFrequency::Custom(s) => RepeatFrequency::Custom(s.clone()),
        }
    }
}

pub open spec fn opt_text(o: Option<String>) -> Option<Seq<char>> {
    match o {
        Some(s) => Some(s@),
        None => None,
    }
}

pub fn duplicate_text(o: &Option<String>) -> (r: Option<String>)
    ensures
        opt_text(r) == opt_text(*o),
{
    match o {
        Some(s) => Some(s.clone()),
        None => None,
    }
}

/// The texts of a list of strings.
pub open spec fn texts(v: Seq<String>) -> Seq<Seq<char>> {
    v.map_values(|s: String| s@)
}

pub fn duplicate_texts(v: &Vec<String>) -> (r: Vec<String>)
    ensures
        texts(r@) == texts(v@),
{
    let mut r: Vec<String> = Vec::new();
    let mut i: usize = 0;
    while i < v.len()
        invariant
            i <= v.len(),
            r.len() == i,
            texts(r@) == texts(v@.subrange(0, i as int)),
        decreases v.len() - i,
    {
        let ghost prev = r@;
        let c = v[i].clone();
        r.push(c);
        proof {
            assert forall|j: int| 0 <= j < i + 1 implies #[trigger] texts(r@)[j] == texts(
                v@.subrange(0, i + 1),
            )[j] by {
                if j < i {
                    assert(texts(prev)[j] == texts(v@.subrange(0, i as int))[j]);
                }
            }
            assert(texts(r@) =~= texts(v@.subrange(0, i + 1)));
        }
        i = i + 1;
    }
    proof {
        assert(v@.subrange(0, v.len() as int) =~= v@);
    }
    r
}

/// One stored event series (a master event).
#[derive(Debug)]
pub struct CalendarEvent {
    pub uid: String,
    pub summary: String,
    pub location: Option<String>,
    pub all_day: bool,
    pub start: Timestamp,
    pub end: Timestamp,
    pub travel_time: TravelTime,
    pub repeat: RepeatFrequency,
    /// Last date on which the series may occur.
    pub repeat_until: Option<Date>,
    /// Dates on which an occurrence of the series is suppressed.
    pub exception_dates: Vec<Date>,
    pub invitees: Vec<String>,
    pub alert: AlertTime,
    pub alert_second: Option<AlertTime>,
    pub attachments: Vec<String>,
    pub url: Option<String>,
    pub notes: Option<String>,
}

/// The mathematical value of a [`CalendarEvent`].
pub ghost struct EventView {
    pub uid: Seq<char>,
    pub summary: Seq<char>,
    pub location: Option<Seq<char>>,
    pub all_day: bool,
    pub start: Timestamp,
    pub end: Timestamp,
    pub travel_time: TravelTime,
    pub repeat: RepeatRule,
    pub repeat_until: Option<Date>,
    pub exception_dates: Seq<Date>,
    pub invitees: Seq<Seq<char>>,
    pub alert: AlertTime,
    pub alert_second: Option<AlertTime>,
    pub attachments: Seq<Seq<char>>,
    pub url: Option<Seq<char>>,
    pub notes: Option<Seq<char>>,
}

impl View for CalendarEvent {
    type V = EventView;

    open spec fn view(&self) -> EventView {
        EventView {
            uid: self.uid@,
            summary: self.summary@,
            location: opt_text(self.location),
            all_day: self.all_day,
            start: self.start,
            end: self.end,
            travel_time: self.travel_time,
            repeat: self.repeat@,
            repeat_until: self.repeat_until,
            exception_dates: self.exception_dates@,
            invitees: texts(self.invitees@),
            alert: self.alert,
            alert_second: self.alert_second,
            attachments: texts(self.attachments@),
            url: opt_text(self.url),
            notes: opt_text(self.notes),
        }
    }
}

/// The values of a list of events.
pub open spec fn events_view(v: Seq<CalendarEvent>) -> Seq<EventView> {
    v.map_values(|e: CalendarEvent| e@)
}

impl EventView {
    /// Times and dates that the record holds are representable, and the
    /// event does not end before it starts.
    pub open spec fn wf(self) -> bool {
        &&& self.start.wf()
        &&& self.end.wf()
        &&& timestamp_le(self.start, self.end)
        &&& (self.repeat_until matches Some(u) ==> u.wf())
        &&& forall|i: int| 0 <= i < self.exception_dates.len() ==> #[trigger] self.exception_dates[i].wf()
    }
}

impl CalendarEvent {
    /// Whether this event can be expanded and displayed: see [`EventView::wf`].
    pub fn is_well_formed(&self) -> (r: bool)
        ensures
            r == self@.wf(),
    {
        if !self.start.is_valid() || !self.end.is_valid() {
            return false;
        }
        let ordered = (self.start.date.at_or_before(&self.end.date) && self.start.date != self.end.date)
            || (self.start.date == self.end.date && self.start.seconds <= self.end.seconds);
        if !ordered {
            return false;
        }
        if let Some(u) = self.repeat_until {
            if !u.is_valid() {
                return false;
            }
        }
        let mut i: usize = 0;
        while i < self.exception_dates.len()
            invariant
                i <= self.exception_dates.len(),
                forall|j: int| 0 <= j < i ==> (#[trigger] self.exception_dates@[j]).wf(),
            decreases self.exception_dates.len() - i,
        {
            if !self.exception_dates[i].is_valid() {
                assert(!self@.exception_dates[i as int].wf());
                return false;
            }
            i = i + 1;
        }
        true
    }

    /// A new single event titled with the trimmed `text`, from `start_date`
    /// to `end_date`: at the given start and end seconds of the day, or all
    /// day (midnight to the last second) without them; `None` for a blank text.
    pub fn quick(
        uid: String,
        text: &str,
        start_date: Date,
        end_date: Date,
        times: Option<(u32, u32)>,
    ) -> (r: Option<CalendarEvent>)
        requires
            times matches Some((a, b)) ==> a < SECONDS_PER_DAY && b < SECONDS_PER_DAY,
        ensures
            trimmed(text@).len() == 0 <==> r is None,
            r matches Some(e) ==> ({
                let (a, b, all_day) = match times {
                    Some((a, b)) => (a, b, false),
                    None => (0u32, (SECONDS_PER_DAY - 1) as u32, true),
                };
                &&& e@.uid == uid@
                &&& e@.summary == trimmed(text@)
                &&& e@.all_day == all_day
                &&& e@.start == (Timestamp { date: start_date, seconds: a })
                &&& e@.end == (Timestamp { date: end_date, seconds: b })
                &&& e@.repeat == RepeatRule::Never
                &&& e@.location is None && e@.url is None && e@.notes is None
                &&& e@.exception_dates.len() == 0 && e@.invitees.len() == 0 && e@.attachments.len() == 0
                &&& e@.travel_time == TravelTime::NoTravel && e@.alert == AlertTime::NoAlert
                &&& e@.alert_second is None && e@.repeat_until is None
            }),
    {
        let title = trim(text);
        if title.unicode_len() == 0 {
            return None;
        }
        let (a, b, all_day) = match times {
            Some((a, b)) => (a, b, false),
            None => (0, SECONDS_PER_DAY - 1, true),
        };
        let invitees: Vec<String> = Vec::new();
        let attachments: Vec<String> = Vec::new();
        proof {
            assert(texts(invitees@) =~= Seq::<Seq<char>>::empty());
            assert(texts(attachments@) =~= Seq::<Seq<char>>::empty());
        }
        Some(CalendarEvent {
            uid,
            summary: String::from_str(title),
            location: None,
            all_day,
            start: Timestamp { date: start_date, seconds: a },
            end: Timestamp { date: end_date, seconds: b },
            travel_time: TravelTime::NoTravel,
            repeat: RepeatFrequency::Never,
            repeat_until: None,
            exception_dates: Vec::new(),
            invitees,
            alert: AlertTime::NoAlert,
            alert_second: None,
            attachments,
            url: None,
            notes: None,
        })
    }

    /// A copy with the same value.
    pub fn duplicate(&self) -> (r: CalendarEvent)
        ensures
            r@ == self@,
    {
        CalendarEvent {
            uid: self.uid.clone(),
            summary: self.summary.clone(),
            location: duplicate_text(&self.location),
            all_day: self.all_day,
            start: self.start,
            end: self.end,
            travel_time: self.travel_time,
            repeat: self.repeat.duplicate(),
            repeat_until: self.repeat_until,
            exception_dates: self.exception_dates.clone(),
            invitees: duplicate_texts(&self.invitees),
            alert: self.alert,
            alert_second: self.alert_second,
            attachments: duplicate_texts(&self.attachments),
            url: duplicate_text(&self.url),
            notes: duplicate_text(&self.notes),
        }
    }
}

} // verus!
