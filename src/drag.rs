//! State of dragging an existing event to another day (and time).

use vstd::prelude::*;
use crate::date::{Date, days_after, days_between};
use crate::display::ClockTime;
use crate::event::{opt_text, duplicate_text};

verus! {

/// Where a dragged event would be dropped.
#[derive(Clone, Copy, Debug, PartialEq, Eq, Structural)]
pub struct DragTarget {
    pub date: Date,
    pub time: Option<ClockTime>,
}

impl DragTarget {
    /// A target day without a time (month view).
    pub fn date_only(date: Date) -> (r: Self)
        ensures
            r == (DragTarget { date, time: None }),
    {
        DragTarget { date, time: None }
    }

    /// A target day and time (week and day views).
    pub fn with_time(date: Date, time: ClockTime) -> (r: Self)
        ensures
            r == (DragTarget { date, time: Some(time) }),
    {
        DragTarget { date, time: Some(time) }
    }
}

/// What the drag preview shows of the event.
#[derive(Debug)]
pub struct DragPreviewInfo {
    pub summary: Option<String>,
    pub color: Option<String>,
}

/// State of moving one event by drag and drop.
#[derive(Debug)]
pub struct EventDragState {
    pub calendar_id: Option<String>,
    pub event_uid: Option<String>,
    pub original_date: Option<Date>,
    pub original_time: Option<ClockTime>,
    pub target: Option<DragTarget>,
    pub is_active: bool,
    pub preview: DragPreviewInfo,
}

impl EventDragState {
    /// No drag in progress.
    pub open spec fn is_idle(&self) -> bool {
        &&& self.calendar_id is None
        &&& self.event_uid is None
        &&& self.original_date is None
        &&& self.original_time is None
        &&& self.target is None
        &&& !self.is_active
        &&& self.preview.summary is None
        &&& self.preview.color is None
    }

    /// A state with no drag in progress.
    pub fn new() -> (r: Self)
        ensures
            r.is_idle(),
    {
        EventDragState {
            calendar_id: None,
            event_uid: None,
            original_date: None,
            original_time: None,
            target: None,
            is_active: false,
            preview: DragPreviewInfo { summary: None, color: None },
        }
    }

    /// Begins dragging event `event_uid` of `calendar_id` from `original_date`
    /// (and `original_time`); the target starts where the event is.
    pub fn start_with_time(
        &mut self,
        calendar_id: String,
        event_uid: String,
        original_date: Date,
        original_time: Option<ClockTime>,
        summary: String,
        color: String,
    )
        ensures
            final(self).is_active,
            opt_text(final(self).calendar_id) == Some(calendar_id@),
            opt_text(final(self).event_uid) == Some(event_uid@),
            final(self).original_date == Some(original_date),
            final(self).original_time == original_time,
            final(self).target == Some(DragTarget { date: original_date, time: original_time }),
            opt_text(final(self).preview.summary) == Some(summary@),
            opt_text(final(self).preview.color) == Some(color@),
    {
        self.calendar_id = Some(calendar_id);
        self.event_uid = Some(event_uid);
        self.original_date = Some(original_date);
        self.original_time = original_time;
        self.target = Some(DragTarget { date: original_date, time: original_time });
        self.is_active = true;
        self.preview.summary = Some(summary);
        self.preview.color = Some(color);
    }

    /// Begins dragging an event by its day (month view).
    pub fn start(&mut self, calendar_id: String, event_uid: String, original_date: Date, summary: String, color: String)
        ensures
            final(self).is_active,
            opt_text(final(self).calendar_id) == Some(calendar_id@),
            opt_text(final(self).event_uid) == Some(event_uid@),
            final(self).original_date == Some(original_date),
            final(self).original_time is None,
            final(self).target == Some(DragTarget { date: original_date, time: None }),
            opt_text(final(self).preview.summary) == Some(summary@),
            opt_text(final(self).preview.color) == Some(color@),
    {
        self.start_with_time(calendar_id, event_uid, original_date, None, summary, color);
    }

    /// Moves the target to `target_date` while a drag is active.
    pub fn update(&mut self, target_date: Date)
        ensures
            old(self).is_active ==> final(self).target == Some(DragTarget { date: target_date, time: None }),
            !old(self).is_active ==> final(self).target == old(self).target,
            final(self).is_active == old(self).is_active,
            final(self).original_date == old(self).original_date,
    {
        if self.is_active {
            self.target = Some(DragTarget::date_only(target_date));
        }
    }

    /// Moves the target to `target_date` at `target_time` while a drag is active.
    pub fn update_with_time(&mut self, target_date: Date, target_time: ClockTime)
        ensures
            old(self).is_active ==> final(self).target == Some(
                DragTarget { date: target_date, time: Some(target_time) },
            ),
            !old(self).is_active ==> final(self).target == old(self).target,
            final(self).is_active == old(self).is_active,
            final(self).original_date == old(self).original_date,
    {
        if self.is_active {
            self.target = Some(DragTarget::with_time(target_date, target_time));
        }
    }

    /// Forgets any drag.
    pub fn reset(&mut self)
        ensures
            final(self).is_idle(),
    {
        self.calendar_id = None;
        self.event_uid = None;
        self.original_date = None;
        self.original_time = None;
        self.target = None;
        self.is_active = false;
        self.preview.summary = None;
        self.preview.color = None;
    }

    /// Abandons the drag.
    pub fn cancel(&mut self)
        ensures
            final(self).is_idle(),
    {
        self.reset();
    }

    /// Ends the drag. When the event was dropped on another day, returns its
    /// calendar id, uid, original day and new day.
    pub fn end(&mut self) -> (r: Option<(String, String, Date, Date)>)
        ensures
            !old(self).is_active ==> r is None && *final(self) == *old(self),
            old(self).is_active ==> final(self).is_idle(),
            old(self).is_active ==> (r is Some <==> (old(self).calendar_id is Some && old(self).event_uid is Some
                && old(self).original_date is Some && old(self).target is Some
                && old(self).original_date->0 != old(self).target->0.date)),
            r matches Some((c, u, from, to)) ==> Some(c@) == opt_text(old(self).calendar_id)
                && Some(u@) == opt_text(old(self).event_uid) && Some(from) == old(self).original_date
                && to == old(self).target->0.date,
    {
        if !self.is_active {
            return None;
        }
        let result = match (&self.calendar_id, &self.event_uid, self.original_date, self.target) {
            (Some(cal), Some(uid), Some(original), Some(target)) => {
                if original != target.date {
                    Some((cal.clone(), uid.clone(), original, target.date))
                } else {
                    None
                }
            },
            _ => None,
        };
        self.reset();
        result
    }

    /// Ends the drag in a view with times. When the event was dropped on
    /// another day or time, returns its uid, original day and time, and new
    /// day and time.
    pub fn end_with_time(&mut self) -> (r: Option<(String, Date, Option<ClockTime>, Date, Option<ClockTime>)>)
        ensures
            !old(self).is_active ==> r is None && *final(self) == *old(self),
            old(self).is_active ==> final(self).is_idle(),
            old(self).is_active ==> (r is Some <==> (old(self).event_uid is Some
                && old(self).original_date is Some && old(self).target is Some
                && (old(self).original_date->0 != old(self).target->0.date
                || old(self).original_time != old(self).target->0.time))),
            r matches Some((u, from, from_time, to, to_time)) ==> Some(u@) == opt_text(old(self).event_uid)
                && Some(from) == old(self).original_date && from_time == old(self).original_time
                && to == old(self).target->0.date && to_time == old(self).target->0.time,
    {
        if !self.is_active {
            return None;
        }
        let result = match (&self.event_uid, self.original_date, self.target) {
            (Some(uid), Some(original), Some(target)) => {
                if original != target.date || self.original_time != target.time {
                    Some((uid.clone(), original, self.original_time, target.date, target.time))
                } else {
                    None
                }
            },
            _ => None,
        };
        self.reset();
        result
    }

    /// The day the event would be dropped on.
    pub fn target_date(&self) -> (r: Option<Date>)
        ensures
            r == match self.target {
                Some(t) => Some(t.date),
                None => None::<Date>,
            },
    {
        match self.target {
            Some(t) => Some(t.date),
            None => None,
        }
    }

    /// The time the event would be dropped at.
    pub fn target_time(&self) -> (r: Option<ClockTime>)
        ensures
            r == match self.target {
                Some(t) => t.time,
                None => None::<ClockTime>,
            },
    {
        match self.target {
            Some(t) => t.time,
            None => None,
        }
    }

    /// Days from the original day to the target day (negative when moved
    /// back); `None` without both days or when either is not a valid date.
    pub fn get_offset(&self) -> (r: Option<i64>)
        ensures
            r matches Some(n) ==> self.original_date is Some && self.target is Some && (n >= 0
                ==> days_after(self.original_date->0, n as nat) == self.target->0.date) && (n < 0
                ==> days_after(self.target->0.date, (-n) as nat) == self.original_date->0),
            (self.original_date matches Some(o) && self.target matches Some(t) && o.wf()
                && t.date.wf()) ==> r is Some,
    {
        match (self.original_date, self.target) {
            (Some(original), Some(target)) => {
                if !original.is_valid() || !target.date.is_valid() {
                    return None;
                }
                if original.at_or_before(&target.date) {
                    Some(days_between(original, target.date) as i64)
                } else {
                    let back = days_between(target.date, original);
                    if back == 0 {
                        Some(0)
                    } else {
                        Some(-(back as i64))
                    }
                }
            },
            _ => None,
        }
    }

    /// The summary shown by the drag preview.
    pub fn event_summary(&self) -> (r: Option<String>)
        ensures
            opt_text(r) == opt_text(self.preview.summary),
    {
        duplicate_text(&self.preview.summary)
    }

    /// The color shown by the drag preview.
    pub fn event_color(&self) -> (r: Option<String>)
        ensures
            opt_text(r) == opt_text(self.preview.color),
    {
        duplicate_text(&self.preview.color)
    }
}

} // verus!
