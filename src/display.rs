//! Grouping of expanded occurrences into per-day display items for the
//! month and week views.

use vstd::prelude::*;
use crate::date::{
    Date, Timestamp, date_le, days_after, days_in_month, month_length, span_days, civil_ok,
    add_days, days_between, lemma_days_after, lemma_span_days, MIN_YEAR, MAX_YEAR, MAX_SPAN_DAYS,
    SECONDS_PER_DAY,
};
use crate::event::{CalendarEvent, EventView, events_view};
use crate::recurrence::{expand, expansion, occurrences_view, Occurrence};

verus! {

/// Hour and minute of a timed event.
#[derive(Clone, Copy, Debug, PartialEq, Eq, Structural, Hash)]
pub struct ClockTime {
    pub hour: u32,
    pub minute: u32,
}

pub open spec fn clock_of(t: Timestamp) -> ClockTime {
    ClockTime { hour: t.seconds / 3600, minute: (t.seconds % 3600) / 60 }
}

/// One item to draw on one day of a view.
#[derive(Debug)]
pub struct DisplayEvent {
    pub calendar_id: String,
    pub uid: String,
    pub summary: String,
    /// Color of the calendar, as hex text.
    pub color: String,
    pub all_day: bool,
    pub start_time: Option<ClockTime>,
    pub end_time: Option<ClockTime>,
    /// First day of a multi-day span.
    pub span_start: Option<Date>,
    /// Last day of a multi-day span.
    pub span_end: Option<Date>,
}

pub ghost struct DisplayView {
    pub calendar_id: Seq<char>,
    pub uid: Seq<char>,
    pub summary: Seq<char>,
    pub color: Seq<char>,
    pub all_day: bool,
    pub start_time: Option<ClockTime>,
    pub end_time: Option<ClockTime>,
    pub span_start: Option<Date>,
    pub span_end: Option<Date>,
}

impl View for DisplayEvent {
    type V = DisplayView;

    open spec fn view(&self) -> DisplayView {
        DisplayView {
            calendar_id: self.calendar_id@,
            uid: self.uid@,
            summary: self.summary@,
            color: self.color@,
            all_day: self.all_day,
            start_time: self.start_time,
            end_time: self.end_time,
            span_start: self.span_start,
            span_end: self.span_end,
        }
    }
}

/// A display item placed on a day.
#[derive(Debug)]
pub struct DayEntry {
    pub date: Date,
    pub event: DisplayEvent,
}

pub open spec fn entries_view(s: Seq<DayEntry>) -> Seq<(Date, DisplayView)> {
    s.map_values(|e: DayEntry| (e.date, e.event@))
}

/// The events of one calendar, with what the views show of the calendar.
#[derive(Debug)]
pub struct CalendarEvents {
    pub calendar_id: String,
    pub color: String,
    pub enabled: bool,
    pub events: Vec<CalendarEvent>,
}

pub ghost struct CalendarEventsView {
    pub calendar_id: Seq<char>,
    pub color: Seq<char>,
    pub enabled: bool,
    pub events: Seq<EventView>,
}

impl View for CalendarEvents {
    type V = CalendarEventsView;

    open spec fn view(&self) -> CalendarEventsView {
        CalendarEventsView {
            calendar_id: self.calendar_id@,
            color: self.color@,
            enabled: self.enabled,
            events: self.events@.map_values(|e: CalendarEvent| e@),
        }
    }
}

pub open spec fn sources_view(s: Seq<CalendarEvents>) -> Seq<CalendarEventsView> {
    s.map_values(|c: CalendarEvents| c@)
}

/// The days `days_after(start, k)` for `k` from `from` through `span` that do
/// not pass `range_end`, kept when they are not before `range_start`.
pub open spec fn covered_days(start: Date, span: nat, range_start: Date, range_end: Date, from: nat) -> Seq<Date>
    decreases span + 1 - from,
{
    if from > span || !date_le(days_after(start, from), range_end) {
        Seq::empty()
    } else {
        (if date_le(range_start, days_after(start, from)) {
            seq![days_after(start, from)]
        } else {
            Seq::empty()
        }) + covered_days(start, span, range_start, range_end, from + 1)
    }
}

/// The item of a multi-day all-day occurrence `ev` placed on day `d`.
pub open spec fn span_item(calendar_id: Seq<char>, color: Seq<char>, ev: EventView, d: Date) -> (Date, DisplayView) {
    (d, DisplayView {
        calendar_id,
        uid: ev.uid,
        summary: ev.summary,
        color,
        all_day: true,
        start_time: None,
        end_time: None,
        span_start: Some(ev.start.date),
        span_end: Some(ev.end.date),
    })
}

pub open spec fn span_items(calendar_id: Seq<char>, color: Seq<char>, ev: EventView, days: Seq<Date>) -> Seq<(Date, DisplayView)> {
    days.map_values(|d: Date| span_item(calendar_id, color, ev, d))
}

/// The items of one occurrence `ev`, whose end date lies `span` days after
/// its start date: an all-day event over several days is placed on each of
/// its days in the range, with its whole span; any other on its start date.
pub open spec fn occurrence_entries(
    calendar_id: Seq<char>,
    color: Seq<char>,
    ev: EventView,
    span: nat,
    range_start: Date,
    range_end: Date,
) -> Seq<(Date, DisplayView)> {
    if ev.all_day && span > 0 {
        span_items(calendar_id, color, ev, covered_days(ev.start.date, span, range_start, range_end, 0))
    } else if date_le(range_start, ev.start.date) && date_le(ev.start.date, range_end) {
        seq![
            (ev.start.date, DisplayView {
                calendar_id,
                uid: ev.uid,
                summary: ev.summary,
                color,
                all_day: ev.all_day,
                start_time: if ev.all_day { None } else { Some(clock_of(ev.start)) },
                end_time: if ev.all_day { None } else { Some(clock_of(ev.end)) },
                span_start: None,
                span_end: None,
            }),
        ]
    } else {
        Seq::empty()
    }
}

pub open spec fn occurrences_entries(
    calendar_id: Seq<char>,
    color: Seq<char>,
    occs: Seq<(Date, EventView)>,
    span: nat,
    range_start: Date,
    range_end: Date,
) -> Seq<(Date, DisplayView)>
    decreases occs.len(),
{
    if occs.len() == 0 {
        Seq::empty()
    } else {
        occurrences_entries(calendar_id, color, occs.drop_last(), span, range_start, range_end)
            + occurrence_entries(calendar_id, color, occs.last().1, span, range_start, range_end)
    }
}

pub open spec fn events_entries(
    calendar_id: Seq<char>,
    color: Seq<char>,
    events: Seq<EventView>,
    range_start: Date,
    range_end: Date,
) -> Seq<(Date, DisplayView)>
    decreases events.len(),
{
    if events.len() == 0 {
        Seq::empty()
    } else {
        let ev = events.last();
        events_entries(calendar_id, color, events.drop_last(), range_start, range_end)
            + occurrences_entries(
            calendar_id,
            color,
            expansion(ev, range_start, range_end),
            span_days(ev.start.date, ev.end.date),
            range_start,
            range_end,
        )
    }
}

/// All items of the enabled calendars in `[range_start, range_end]`, calendar
/// by calendar and event by event, occurrences in cadence order.
pub open spec fn display_entries(sources: Seq<CalendarEventsView>, range_start: Date, range_end: Date) -> Seq<(Date, DisplayView)>
    decreases sources.len(),
{
    if sources.len() == 0 {
        Seq::empty()
    } else {
        let src = sources.last();
        display_entries(sources.drop_last(), range_start, range_end) + if src.enabled {
            events_entries(src.calendar_id, src.color, src.events, range_start, range_end)
        } else {
            Seq::empty()
        }
    }
}

pub open spec fn sources_wf(sources: Seq<CalendarEventsView>) -> bool {
    forall|i: int, j: int|
        0 <= i < sources.len() && 0 <= j < sources[i].events.len() ==> (
        #[trigger] sources[i].events[j]).wf()
}

fn clock_time(t: Timestamp) -> (r: ClockTime)
    requires
        t.seconds < SECONDS_PER_DAY,
    ensures
        r == clock_of(t),
{
    ClockTime { hour: t.hour(), minute: t.minute() }
}

fn push_occurrence(
    out: &mut Vec<DayEntry>,
    calendar_id: &String,
    color: &String,
    ev: &CalendarEvent,
    span: u32,
    range_start: Date,
    range_end: Date,
)
    requires
        ev.start.date.wf(),
        ev.start.seconds < SECONDS_PER_DAY,
        ev.end.seconds < SECONDS_PER_DAY,
        span <= MAX_SPAN_DAYS,
        range_start.wf(),
        range_end.wf(),
    ensures
        entries_view(final(out)@) == entries_view(old(out)@) + occurrence_entries(
            calendar_id@,
            color@,
            ev@,
            span as nat,
            range_start,
            range_end,
        ),
{
    let ghost before = entries_view(out@);
    let ghost evv = ev@;
    let start = ev.start.date;
    if ev.all_day && span > 0 {
        let mut k: u32 = 0;
        let mut current = start;
        proof {
            lemma_days_after(start, 0);
        }
        while k <= span && current.at_or_before(&range_end)
            invariant
                k <= span + 1,
                span <= MAX_SPAN_DAYS,
                start.wf(),
                range_start.wf(),
                range_end.wf(),
                current == days_after(start, k as nat),
                civil_ok(current),
                evv == ev@,
                entries_view(out@) + span_items(calendar_id@, color@, evv, covered_days(start, span as nat, range_start, range_end, k as nat))
                    == before + span_items(calendar_id@, color@, evv, covered_days(start, span as nat, range_start, range_end, 0)),
            decreases span + 1 - k,
        {
            let ghost prev = entries_view(out@);
            let ghost here = if date_le(range_start, current) {
                seq![current]
            } else {
                Seq::<Date>::empty()
            };
            let ghost rest = covered_days(start, span as nat, range_start, range_end, (k + 1) as nat);
            assert(covered_days(start, span as nat, range_start, range_end, k as nat) == here + rest);
            if range_start.at_or_before(&current) {
                out.push(
                    DayEntry {
                        date: current,
                        event: DisplayEvent {
                            calendar_id: calendar_id.clone(),
                            uid: ev.uid.clone(),
                            summary: ev.summary.clone(),
                            color: color.clone(),
                            all_day: true,
                            start_time: None,
                            end_time: None,
                            span_start: Some(ev.start.date),
                            span_end: Some(ev.end.date),
                        },
                    },
                );
                proof {
                    let last = out@[out@.len() - 1];
                    assert(last.date == current);
                    assert(last.event@ == span_item(calendar_id@, color@, evv, current).1);
                    assert(entries_view(out@) =~= prev.push(span_item(calendar_id@, color@, evv, current)));
                }
            }
            proof {
                assert(span_items(calendar_id@, color@, evv, here + rest) =~= span_items(calendar_id@, color@, evv, here) + span_items(calendar_id@, color@, evv, rest));
                assert(entries_view(out@) =~= prev + span_items(calendar_id@, color@, evv, here));
            }
            assert(current.wf());
            proof {
                lemma_days_after(current, 1);
                crate::date::lemma_days_after_add(start, k as nat, 1);
            }
            current = add_days(current, 1);
            k = k + 1;
        }
        proof {
            assert(covered_days(start, span as nat, range_start, range_end, k as nat) =~= Seq::<Date>::empty());
            assert(entries_view(out@) =~= entries_view(out@) + span_items(calendar_id@, color@, evv, Seq::<Date>::empty()));
        }
    } else if range_start.at_or_before(&start) && start.at_or_before(&range_end) {
        let (start_time, end_time) = if ev.all_day {
            (None, None)
        } else {
            (Some(clock_time(ev.start)), Some(clock_time(ev.end)))
        };
        out.push(
            DayEntry {
                date: start,
                event: DisplayEvent {
                    calendar_id: calendar_id.clone(),
                    uid: ev.uid.clone(),
                    summary: ev.summary.clone(),
                    color: color.clone(),
                    all_day: ev.all_day,
                    start_time,
                    end_time,
                    span_start: None,
                    span_end: None,
                },
            },
        );
        proof {
            assert(entries_view(out@) =~= before + occurrence_entries(
                calendar_id@,
                color@,
                evv,
                span as nat,
                range_start,
                range_end,
            ));
        }
    } else {
        proof {
            assert(entries_view(out@) =~= before + Seq::<(Date, DisplayView)>::empty());
        }
    }
}

fn push_event(
    out: &mut Vec<DayEntry>,
    calendar_id: &String,
    color: &String,
    ev: &CalendarEvent,
    range_start: Date,
    range_end: Date,
)
    requires
        ev@.wf(),
        range_start.wf(),
        range_end.wf(),
    ensures
        entries_view(final(out)@) == entries_view(old(out)@) + occurrences_entries(
            calendar_id@,
            color@,
            expansion(ev@, range_start, range_end),
            span_days(ev.start.date, ev.end.date),
            range_start,
            range_end,
        ),
{
    let ghost before = entries_view(out@);
    let span = days_between(ev.start.date, ev.end.date);
    proof {
        lemma_span_days(ev.start.date, ev.end.date, span as nat);
    }
    let occs = expand(ev, range_start, range_end);
    let ghost all = occurrences_view(occs@);
    let mut i: usize = 0;
    proof {
        assert(all.subrange(0, 0) =~= Seq::<(Date, EventView)>::empty());
    }
    while i < occs.len()
        invariant
            i <= occs.len(),
            all == occurrences_view(occs@),
            all == expansion(ev@, range_start, range_end),
            forall|j: int| 0 <= j < occs@.len() ==> (#[trigger] occs@[j]).date.wf(),
            span <= MAX_SPAN_DAYS,
            span == span_days(ev.start.date, ev.end.date),
            ev@.wf(),
            range_start.wf(),
            range_end.wf(),
            entries_view(out@) == before + occurrences_entries(
                calendar_id@,
                color@,
                all.subrange(0, i as int),
                span as nat,
                range_start,
                range_end,
            ),
        decreases occs.len() - i,
    {
        let occ: &Occurrence = &occs[i];
        proof {
            crate::recurrence::lemma_occurrence_fields(ev@, range_start, range_end, i as int);
            assert(all[i as int] == (occ.date, occ.event@));
        }
        push_occurrence(out, calendar_id, color, &occ.event, span, range_start, range_end);
        proof {
            assert(all.subrange(0, i + 1).drop_last() =~= all.subrange(0, i as int));
        }
        i = i + 1;
    }
    proof {
        assert(all.subrange(0, occs.len() as int) =~= all);
    }
}

/// The display items of the enabled calendars over `[range_start, range_end]`.
pub fn aggregate(sources: &Vec<CalendarEvents>, range_start: Date, range_end: Date) -> (r: Vec<DayEntry>)
    requires
        sources_wf(sources_view(sources@)),
        range_start.wf(),
        range_end.wf(),
    ensures
        entries_view(r@) == display_entries(sources_view(sources@), range_start, range_end),
{
    let ghost sv = sources_view(sources@);
    let mut out: Vec<DayEntry> = Vec::new();
    let mut s: usize = 0;
    proof {
        assert(sv.subrange(0, 0) =~= Seq::<CalendarEventsView>::empty());
        assert(entries_view(out@) =~= Seq::<(Date, DisplayView)>::empty());
    }
    while s < sources.len()
        invariant
            s <= sources.len(),
            sv == sources_view(sources@),
            sources_wf(sv),
            range_start.wf(),
            range_end.wf(),
            entries_view(out@) == display_entries(sv.subrange(0, s as int), range_start, range_end),
        decreases sources.len() - s,
    {
        let src = &sources[s];
        let ghost before = entries_view(out@);
        let ghost evs = sv[s as int].events;
        if src.enabled {
            let mut e: usize = 0;
            proof {
                assert(evs.subrange(0, 0) =~= Seq::<EventView>::empty());
                assert(before + Seq::<(Date, DisplayView)>::empty() =~= before);
            }
            while e < src.events.len()
                invariant
                    e <= src.events.len(),
                    src == &sources[s as int],
                    0 <= s < sources.len(),
                    sv == sources_view(sources@),
                    sources_wf(sv),
                    evs == sv[s as int].events,
                    evs == src.events@.map_values(|x: CalendarEvent| x@),
                    range_start.wf(),
                    range_end.wf(),
                    entries_view(out@) == before + events_entries(
                        src.calendar_id@,
                        src.color@,
                        evs.subrange(0, e as int),
                        range_start,
                        range_end,
                    ),
                decreases src.events.len() - e,
            {
                let ev = &src.events[e];
                proof {
                    assert(evs[e as int] == ev@);
                    assert(sv[s as int].events[e as int].wf());
                    assert(evs.subrange(0, e + 1).drop_last() =~= evs.subrange(0, e as int));
                }
                push_event(&mut out, &src.calendar_id, &src.color, ev, range_start, range_end);
                proof {
                    assert(entries_view(out@) =~= before + events_entries(
                        src.calendar_id@,
                        src.color@,
                        evs.subrange(0, e + 1),
                        range_start,
                        range_end,
                    ));
                }
                e = e + 1;
            }
            proof {
                assert(evs.subrange(0, src.events.len() as int) =~= evs);
            }
        }
        proof {
            assert(sv.subrange(0, s + 1).drop_last() =~= sv.subrange(0, s as int));
            assert(entries_view(out@) =~= display_entries(sv.subrange(0, s + 1), range_start, range_end));
        }
        s = s + 1;
    }
    proof {
        assert(sv.subrange(0, sources.len() as int) =~= sv);
    }
    out
}

/// First day of the grid window of a month view: six days before the first
/// of the month.
pub open spec fn month_window_start(year: int, month: int) -> Date {
    if month == 1 {
        Date { year: (year - 1) as i32, month: 12, day: (days_in_month(year - 1, 12) - 5) as u32 }
    } else {
        Date {
            year: year as i32,
            month: (month - 1) as u32,
            day: (days_in_month(year, month - 1) - 5) as u32,
        }
    }
}

/// Last day of the grid window of a month view: thirteen days after the
/// last day of the month.
pub open spec fn month_window_end(year: int, month: int) -> Date {
    if month == 12 {
        Date { year: (year + 1) as i32, month: 1, day: 13 }
    } else {
        Date { year: year as i32, month: (month + 1) as u32, day: 13 }
    }
}

/// The window of days a month view shows, spilling into the adjacent months;
/// `None` when the month, or the window, leaves the four-digit years.
pub fn month_view_range(year: i32, month: u32) -> (r: Option<(Date, Date)>)
    ensures
        r is Some <==> (1 <= month <= 12 && MIN_YEAR <= year <= MAX_YEAR && !(year == MIN_YEAR
            && month == 1) && !(year == MAX_YEAR && month == 12)),
        r matches Some((a, b)) ==> a == month_window_start(year as int, month as int) && b
            == month_window_end(year as int, month as int) && a.wf() && b.wf(),
{
    if month < 1 || month > 12 || year < MIN_YEAR || year > MAX_YEAR || (year == MIN_YEAR && month
        == 1) || (year == MAX_YEAR && month == 12) {
        return None;
    }
    let start = if month == 1 {
        Date { year: year - 1, month: 12, day: month_length(year - 1, 12) - 5 }
    } else {
        Date { year, month: month - 1, day: month_length(year, month - 1) - 5 }
    };
    let end = if month == 12 {
        Date { year: year + 1, month: 1, day: 13 }
    } else {
        Date { year, month: month + 1, day: 13 }
    };
    Some((start, end))
}

/// The display items of the enabled calendars for the month view of
/// `month` in `year`; empty where [`month_view_range`] has no window.
pub fn get_display_events_for_month(sources: &Vec<CalendarEvents>, year: i32, month: u32) -> (r: Vec<DayEntry>)
    requires
        sources_wf(sources_view(sources@)),
    ensures
        match month_view_range_spec(year as int, month as int) {
            Some((a, b)) => entries_view(r@) == display_entries(sources_view(sources@), a, b),
            None => r@.len() == 0,
        },
{
    match month_view_range(year, month) {
        Some((a, b)) => aggregate(sources, a, b),
        None => Vec::new(),
    }
}

pub open spec fn month_view_range_spec(year: int, month: int) -> Option<(Date, Date)> {
    if 1 <= month <= 12 && MIN_YEAR <= year <= MAX_YEAR && !(year == MIN_YEAR && month == 1) && !(
    year == MAX_YEAR && month == 12) {
        Some((month_window_start(year, month), month_window_end(year, month)))
    } else {
        None
    }
}

/// The display items of the enabled calendars for a week view showing
/// `week_days`, from its first day through its last.
pub fn get_display_events_for_week(sources: &Vec<CalendarEvents>, week_days: &Vec<Date>) -> (r: Vec<DayEntry>)
    requires
        sources_wf(sources_view(sources@)),
        forall|i: int| 0 <= i < week_days@.len() ==> (#[trigger] week_days@[i]).wf(),
    ensures
        week_days@.len() == 0 ==> r@.len() == 0,
        week_days@.len() > 0 ==> entries_view(r@) == display_entries(
            sources_view(sources@),
            week_days@[0],
            week_days@.last(),
        ),
{
    if week_days.len() == 0 {
        return Vec::new();
    }
    aggregate(sources, week_days[0], week_days[week_days.len() - 1])
}

/// The events of `events`, in order, that start on `date`.
pub open spec fn starting_on(events: Seq<EventView>, date: Date) -> Seq<EventView>
    decreases events.len(),
{
    if events.len() == 0 {
        Seq::empty()
    } else {
        starting_on(events.drop_last(), date) + if events.last().start.date == date {
            seq![events.last()]
        } else {
            Seq::empty()
        }
    }
}

/// The events of `events`, in order, that start in `month` of `year`.
pub open spec fn starting_in_month(events: Seq<EventView>, year: i32, month: u32) -> Seq<EventView>
    decreases events.len(),
{
    if events.len() == 0 {
        Seq::empty()
    } else {
        starting_in_month(events.drop_last(), year, month) + if events.last().start.date.year == year
            && events.last().start.date.month == month {
            seq![events.last()]
        } else {
            Seq::empty()
        }
    }
}

/// The events that start on `date`.
pub fn get_events_for_date(events: &Vec<CalendarEvent>, date: Date) -> (r: Vec<CalendarEvent>)
    ensures
        events_view(r@) == starting_on(events_view(events@), date),
{
    let ghost all = events_view(events@);
    let mut r: Vec<CalendarEvent> = Vec::new();
    let mut i: usize = 0;
    proof {
        assert(all.subrange(0, 0) =~= Seq::<EventView>::empty());
        assert(events_view(r@) =~= Seq::<EventView>::empty());
    }
    while i < events.len()
        invariant
            i <= events.len(),
            all == events_view(events@),
            events_view(r@) == starting_on(all.subrange(0, i as int), date),
        decreases events.len() - i,
    {
        let ghost before = events_view(r@);
        proof {
            assert(all.subrange(0, i + 1).drop_last() =~= all.subrange(0, i as int));
            assert(all.subrange(0, i + 1).last() == events@[i as int]@);
        }
        if events[i].start.date == date {
            r.push(events[i].duplicate());
            proof {
                assert(events_view(r@) =~= before.push(events@[i as int]@));
            }
        }
        proof {
            assert(events_view(r@) =~= starting_on(all.subrange(0, i + 1), date));
        }
        i = i + 1;
    }
    proof {
        assert(all.subrange(0, events.len() as int) =~= all);
    }
    r
}

/// The events that start in `month` of `year`.
pub fn get_events_for_month(events: &Vec<CalendarEvent>, year: i32, month: u32) -> (r: Vec<CalendarEvent>)
    ensures
        events_view(r@) == starting_in_month(events_view(events@), year, month),
{
    let ghost all = events_view(events@);
    let mut r: Vec<CalendarEvent> = Vec::new();
    let mut i: usize = 0;
    proof {
        assert(all.subrange(0, 0) =~= Seq::<EventView>::empty());
        assert(events_view(r@) =~= Seq::<EventView>::empty());
    }
    while i < events.len()
        invariant
            i <= events.len(),
            all == events_view(events@),
            events_view(r@) == starting_in_month(all.subrange(0, i as int), year, month),
        decreases events.len() - i,
    {
        let ghost before = events_view(r@);
        proof {
            assert(all.subrange(0, i + 1).drop_last() =~= all.subrange(0, i as int));
            assert(all.subrange(0, i + 1).last() == events@[i as int]@);
        }
        if events[i].start.date.year == year && events[i].start.date.month == month {
            r.push(events[i].duplicate());
            proof {
                assert(events_view(r@) =~= before.push(events@[i as int]@));
            }
        }
        proof {
            assert(events_view(r@) =~= starting_in_month(all.subrange(0, i + 1), year, month));
        }
        i = i + 1;
    }
    proof {
        assert(all.subrange(0, events.len() as int) =~= all);
    }
    r
}

/// Where a day falls within a multi-day span.
#[derive(Clone, Copy, Debug, PartialEq, Eq, Structural)]
pub enum SpanPosition {
    /// Not part of a span of several days.
    Single,
    First,
    Middle,
    Last,
}

pub open spec fn span_position(span_start: Option<Date>, span_end: Option<Date>, d: Date) -> SpanPosition {
    match (span_start, span_end) {
        (Some(a), Some(b)) => {
            if a == b {
                SpanPosition::Single
            } else if d == a {
                SpanPosition::First
            } else if d == b {
                SpanPosition::Last
            } else if date_le(a, d) && date_le(d, b) {
                SpanPosition::Middle
            } else {
                SpanPosition::Single
            }
        },
        _ => SpanPosition::Single,
    }
}

impl DisplayEvent {
    /// An all-day item whose span covers more than one day.
    pub fn is_multi_day(&self) -> (r: bool)
        ensures
            r == (self.all_day && self.span_start is Some && self.span_end is Some
                && self.span_start != self.span_end),
    {
        match (self.span_start, self.span_end) {
            (Some(a), Some(b)) => self.all_day && a != b,
            _ => false,
        }
    }

    /// Where `date` falls within this item's span.
    pub fn span_position_for_date(&self, date: Date) -> (r: SpanPosition)
        ensures
            r == span_position(self.span_start, self.span_end, date),
    {
        match (self.span_start, self.span_end) {
            (Some(a), Some(b)) => {
                if a == b {
                    SpanPosition::Single
                } else if date == a {
                    SpanPosition::First
                } else if date == b {
                    SpanPosition::Last
                } else if a.at_or_before(&date) && date.at_or_before(&b) {
                    SpanPosition::Middle
                } else {
                    SpanPosition::Single
                }
            },
            _ => SpanPosition::Single,
        }
    }
}

} // verus!
