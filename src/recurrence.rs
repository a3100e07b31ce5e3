//! Expansion of a master event into the occurrences shown for a date window.

use vstd::prelude::*;
use crate::date::{
    Date, Timestamp, date_le, days_after, months_after, span_days, civil_ok, add_days, add_months,
    days_between, sub_days, lemma_days_after, lemma_months_after, lemma_span_days, MAX_SPAN_DAYS,
    lemma_days_after_add, lemma_days_after_order,
};
use crate::event::{CalendarEvent, EventView, RepeatFrequency, RepeatRule};
use crate::occurrence::{
    occurrence_uid, occurrence_uid_text, occurrence_date_of, master_uid_of, extract_master_uid,
    extract_occurrence_date,
};
use crate::text::text_eq;

verus! {

/// Most cursor dates one expansion visits; a guard against runaway series.
pub const MAX_ITERATIONS: u32 = 1000;

/// One concrete occurrence: its date and the event as shown on that date.
#[derive(Debug)]
pub struct Occurrence {
    pub date: Date,
    pub event: CalendarEvent,
}

pub open spec fn occurrences_view(s: Seq<Occurrence>) -> Seq<(Date, EventView)> {
    s.map_values(|o: Occurrence| (o.date, o.event@))
}

/// The cursor date that follows `c` under `rule`; `None` ends the series.
pub open spec fn advance(rule: RepeatRule, c: Date) -> Option<Date> {
    match rule {
        RepeatRule::Daily => Some(days_after(c, 1)),
        RepeatRule::Weekly => Some(days_after(c, 7)),
        RepeatRule::Biweekly => Some(days_after(c, 14)),
        RepeatRule::Monthly => Some(months_after(c, 1)),
        RepeatRule::Yearly => Some(months_after(c, 12)),
        _ => None,
    }
}

/// Last date the series may reach in a window ending on `range_end`.
pub open spec fn recurrence_end(ev: EventView, range_end: Date) -> Date {
    match ev.repeat_until {
        Some(u) => u,
        None => range_end,
    }
}

/// The dates emitted from cursor `c` on, with `fuel` iterations left.
pub open spec fn cursor_dates(ev: EventView, range_start: Date, range_end: Date, c: Date, fuel: nat) -> Seq<Date>
    decreases fuel,
{
    if fuel == 0 || !date_le(c, recurrence_end(ev, range_end)) || !date_le(c, range_end) {
        Seq::empty()
    } else {
        let here = if date_le(range_start, c) && !ev.exception_dates.contains(c) {
            seq![c]
        } else {
            Seq::empty()
        };
        match advance(ev.repeat, c) {
            Some(n) => here + cursor_dates(ev, range_start, range_end, n, (fuel - 1) as nat),
            None => here,
        }
    }
}

/// The dates on which the series has an occurrence in `[range_start, range_end]`.
pub open spec fn occurrence_dates(ev: EventView, range_start: Date, range_end: Date) -> Seq<Date> {
    if ev.repeat == RepeatRule::Never {
        if date_le(range_start, ev.start.date) && date_le(ev.start.date, range_end) {
            seq![ev.start.date]
        } else {
            Seq::empty()
        }
    } else {
        cursor_dates(ev, range_start, range_end, ev.start.date, MAX_ITERATIONS as nat)
    }
}

/// The event as shown on `c`: start moved to `c` at the same time of day,
/// the same length, and the occurrence identifier as uid.
pub open spec fn occurrence_event(ev: EventView, c: Date) -> EventView {
    EventView {
        uid: occurrence_uid_text(ev.uid, c),
        start: Timestamp { date: c, seconds: ev.start.seconds },
        end: Timestamp {
            date: days_after(c, span_days(ev.start.date, ev.end.date)),
            seconds: ev.end.seconds,
        },
        ..ev
    }
}

/// What [`expand`] returns.
pub open spec fn expansion(ev: EventView, range_start: Date, range_end: Date) -> Seq<(Date, EventView)> {
    if ev.repeat == RepeatRule::Never {
        if date_le(range_start, ev.start.date) && date_le(ev.start.date, range_end) {
            seq![(ev.start.date, ev)]
        } else {
            Seq::empty()
        }
    } else {
        occurrence_dates(ev, range_start, range_end).map_values(|c: Date| (c, occurrence_event(ev, c)))
    }
}

fn contains_date(v: &Vec<Date>, d: Date) -> (r: bool)
    ensures
        r == v@.contains(d),
{
    let mut i: usize = 0;
    while i < v.len()
        invariant
            i <= v.len(),
            forall|j: int| 0 <= j < i ==> v@[j] != d,
        decreases v.len() - i,
    {
        if v[i] == d {
            return true;
        }
        i = i + 1;
    }
    false
}

fn materialize(event: &CalendarEvent, c: Date, span: u32) -> (r: CalendarEvent)
    requires
        event@.wf(),
        c.wf(),
        span <= MAX_SPAN_DAYS,
        days_after(event.start.date, span as nat) == event.end.date,
    ensures
        r@ == occurrence_event(event@, c),
{
    proof {
        lemma_span_days(event.start.date, event.end.date, span as nat);
    }
    let mut occ = event.duplicate();
    occ.uid = occurrence_uid(event.uid.as_str(), c);
    occ.start = Timestamp { date: c, seconds: event.start.seconds };
    occ.end = Timestamp { date: add_days(c, span), seconds: event.end.seconds };
    occ
}

/// The occurrences of `event` dated within `[range_start, range_end]`, in
/// cadence order. A series that does not repeat has its one occurrence, with
/// the event unchanged; a repeating one starts at the event's own date, stops
/// after `repeat_until` and the window, skips its exception dates, and visits
/// at most [`MAX_ITERATIONS`] cursor dates.
pub fn expand(event: &CalendarEvent, range_start: Date, range_end: Date) -> (r: Vec<Occurrence>)
    requires
        event@.wf(),
        range_start.wf(),
        range_end.wf(),
    ensures
        occurrences_view(r@) == expansion(event@, range_start, range_end),
        forall|i: int| 0 <= i < r@.len() ==> (#[trigger] r@[i]).date.wf(),
{
    let ghost ev = event@;
    let start_date = event.start.date;
    let mut r: Vec<Occurrence> = Vec::new();
    if let RepeatFrequency::Never = event.repeat {
        if range_start.at_or_before(&start_date) && start_date.at_or_before(&range_end) {
            r.push(Occurrence { date: start_date, event: event.duplicate() });
            proof {
                assert(occurrences_view(r@) =~= seq![(start_date, ev)]);
            }
        } else {
            proof {
                assert(occurrences_view(r@) =~= Seq::<(Date, EventView)>::empty());
            }
        }
        return r;
    }
    let rec_end = match event.repeat_until {
        Some(u) => u,
        None => range_end,
    };
    let span = days_between(event.start.date, event.end.date);
    let mut cursor = start_date;
    let mut count: u32 = 0;
    let mut stopped = false;
    let ghost dates: Seq<Date> = Seq::empty();
    let ghost all = cursor_dates(ev, range_start, range_end, start_date, MAX_ITERATIONS as nat);
    proof {
        assert(occurrences_view(r@) =~= dates.map_values(|c: Date| (c, occurrence_event(ev, c))));
        assert(dates + all =~= all);
    }
    while !stopped && count < MAX_ITERATIONS && cursor.at_or_before(&rec_end) && cursor.at_or_before(&range_end)
        invariant
            ev == event@,
            ev.wf(),
            ev.repeat != RepeatRule::Never,
            range_start.wf(),
            range_end.wf(),
            rec_end == recurrence_end(ev, range_end),
            days_after(start_date, span as nat) == event.end.date,
            span <= MAX_SPAN_DAYS,
            start_date == ev.start.date,
            civil_ok(cursor),
            count <= MAX_ITERATIONS,
            all == cursor_dates(ev, range_start, range_end, start_date, MAX_ITERATIONS as nat),
            !stopped ==> all == dates + cursor_dates(
                ev,
                range_start,
                range_end,
                cursor,
                (MAX_ITERATIONS - count) as nat,
            ),
            stopped ==> all == dates,
            occurrences_view(r@) == dates.map_values(|c: Date| (c, occurrence_event(ev, c))),
            forall|i: int| 0 <= i < r@.len() ==> (#[trigger] r@[i]).date.wf(),
        decreases MAX_ITERATIONS - count,
    {
        let ghost fuel = (MAX_ITERATIONS - count) as nat;
        let ghost here = if date_le(range_start, cursor) && !ev.exception_dates.contains(cursor) {
            seq![cursor]
        } else {
            Seq::<Date>::empty()
        };
        assert(cursor.wf());
        let ghost old_r = r@;
        let ghost old_dates = dates;
        if range_start.at_or_before(&cursor) && !contains_date(&event.exception_dates, cursor) {
            let occ = materialize(event, cursor, span);
            r.push(Occurrence { date: cursor, event: occ });
            proof {
                dates = dates.push(cursor);
                assert(occurrences_view(r@) =~= dates.map_values(
                    |c: Date| (c, occurrence_event(ev, c)),
                )) by {
                    assert(occurrences_view(r@) =~= occurrences_view(old_r).push(
                        (cursor, occurrence_event(ev, cursor)),
                    ));
                }
            }
        }
        proof {
            assert(dates =~= old_dates + here);
        }
        count = count + 1;
        let next: Option<Date> = match event.repeat {
            RepeatFrequency::Daily => Some(add_days(cursor, 1)),
            RepeatFrequency::Weekly => Some(add_days(cursor, 7)),
            RepeatFrequency::Biweekly => Some(add_days(cursor, 14)),
            RepeatFrequency::Monthly => Some(add_months(cursor, 1)),
            RepeatFrequency::Yearly => Some(add_months(cursor, 12)),
            _ => None,
        };
        assert(next == advance(ev.repeat, cursor));
        match next {
            Some(n) => {
                proof {
                    lemma_days_after(cursor, 1);
                    lemma_days_after(cursor, 7);
                    lemma_days_after(cursor, 14);
                    lemma_months_after(cursor, 1);
                    lemma_months_after(cursor, 12);
                    assert(dates + cursor_dates(ev, range_start, range_end, n, (fuel - 1) as nat)
                        =~= old_dates + (here + cursor_dates(
                        ev,
                        range_start,
                        range_end,
                        n,
                        (fuel - 1) as nat,
                    )));
                }
                cursor = n;
            },
            None => {
                stopped = true;
            },
        }
    }
    proof {
        if !stopped {
            assert(dates + Seq::<Date>::empty() =~= dates);
        }
    }
    r
}

/// Whether the cursor dates from `c` on, with `fuel` iterations left, are
/// still inside the window when the iterations run out.
pub open spec fn cut_by_cap(ev: EventView, range_end: Date, c: Date, fuel: nat) -> bool
    decreases fuel,
{
    if !date_le(c, recurrence_end(ev, range_end)) || !date_le(c, range_end) {
        false
    } else if fuel == 0 {
        true
    } else {
        match advance(ev.repeat, c) {
            Some(n) => cut_by_cap(ev, range_end, n, (fuel - 1) as nat),
            None => false,
        }
    }
}

/// Whether [`expand`] stops at [`MAX_ITERATIONS`] cursor dates while the
/// series still runs inside the window, so that its result leaves out
/// occurrences; callers may report this.
pub fn hits_iteration_cap(event: &CalendarEvent, range_end: Date) -> (r: bool)
    requires
        event@.wf(),
        range_end.wf(),
    ensures
        r == (event@.repeat != RepeatRule::Never && cut_by_cap(
            event@,
            range_end,
            event.start.date,
            MAX_ITERATIONS as nat,
        )),
{
    let ghost ev = event@;
    if let RepeatFrequency::Never = event.repeat {
        return false;
    }
    let rec_end = match event.repeat_until {
        Some(u) => u,
        None => range_end,
    };
    let mut cursor = event.start.date;
    let mut count: u32 = 0;
    while cursor.at_or_before(&rec_end) && cursor.at_or_before(&range_end)
        invariant
            ev == event@,
            ev.wf(),
            range_end.wf(),
            rec_end == recurrence_end(ev, range_end),
            civil_ok(cursor),
            count <= MAX_ITERATIONS,
            cut_by_cap(ev, range_end, event.start.date, MAX_ITERATIONS as nat) == cut_by_cap(
                ev,
                range_end,
                cursor,
                (MAX_ITERATIONS - count) as nat,
            ),
        decreases MAX_ITERATIONS - count,
    {
        if count == MAX_ITERATIONS {
            return true;
        }
        assert(cursor.wf());
        proof {
            lemma_days_after(cursor, 1);
            lemma_days_after(cursor, 7);
            lemma_days_after(cursor, 14);
            lemma_months_after(cursor, 1);
            lemma_months_after(cursor, 12);
        }
        let next: Option<Date> = match event.repeat {
            RepeatFrequency::Daily => Some(add_days(cursor, 1)),
            RepeatFrequency::Weekly => Some(add_days(cursor, 7)),
            RepeatFrequency::Biweekly => Some(add_days(cursor, 14)),
            RepeatFrequency::Monthly => Some(add_months(cursor, 1)),
            RepeatFrequency::Yearly => Some(add_months(cursor, 12)),
            _ => None,
        };
        assert(next == advance(ev.repeat, cursor));
        match next {
            Some(n) => {
                cursor = n;
            },
            None => {
                return false;
            },
        }
        count = count + 1;
    }
    false
}

/// `ev` with its start and end on other dates, times of day kept.
pub open spec fn with_dates(ev: EventView, start: Date, end: Date) -> EventView {
    EventView {
        start: Timestamp { date: start, seconds: ev.start.seconds },
        end: Timestamp { date: end, seconds: ev.end.seconds },
        ..ev
    }
}

/// `moved` is `ev` shifted `n` days forward (or backward): its start lies
/// `n` days after (before) that of `ev`, and its end as many days after its
/// start as in `ev`.
pub open spec fn shifted_by(ev: EventView, moved: EventView, n: nat, forward: bool) -> bool {
    &&& moved == with_dates(ev, moved.start.date, days_after(moved.start.date, span_days(ev.start.date, ev.end.date)))
    &&& if forward {
        moved.start.date == days_after(ev.start.date, n)
    } else {
        days_after(moved.start.date, n) == ev.start.date
    }
}

/// The event moved by as many days as lie from `from` to `to` (backward when
/// `to` comes first), as when it is dragged from one day to another; `None`
/// when a moved date leaves the four-digit years.
pub fn move_event(event: &CalendarEvent, from: Date, to: Date) -> (r: Option<CalendarEvent>)
    requires
        event@.wf(),
        from.wf(),
        to.wf(),
    ensures
        r matches Some(m) ==> m@.wf() && (exists|n: nat|
            #![trigger days_after(from, n)]
            #![trigger days_after(to, n)]
            n <= MAX_SPAN_DAYS && if date_le(from, to) {
                days_after(from, n) == to && shifted_by(event@, m@, n, true)
            } else {
                days_after(to, n) == from && shifted_by(event@, m@, n, false)
            }),
        forall|n: nat|
            #![trigger days_after(from, n)]
            n <= MAX_SPAN_DAYS && date_le(from, to) && days_after(from, n) == to ==> (r is Some
                <==> days_after(event.end.date, n).wf()),
        forall|n: nat|
            #![trigger days_after(to, n)]
            n <= MAX_SPAN_DAYS && !date_le(from, to) && days_after(to, n) == from
                && event.start.date.year >= n ==> r is Some,
{
    let span = days_between(event.start.date, event.end.date);
    proof {
        lemma_span_days(event.start.date, event.end.date, span as nat);
    }
    let forward = from.at_or_before(&to);
    let n = if forward { days_between(from, to) } else { days_between(to, from) };
    let start = if forward { add_days(event.start.date, n) } else { sub_days(event.start.date, n) };
    proof {
        if forward {
            lemma_days_after(event.start.date, n as nat);
            assert forall|k: nat| k <= MAX_SPAN_DAYS && days_after(from, k) == to implies k == n by {
                crate::date::lemma_days_after_unique(from, k, n as nat);
            }
        } else {
            assert forall|k: nat| k <= MAX_SPAN_DAYS && days_after(to, k) == from implies k == n by {
                crate::date::lemma_days_after_unique(to, k, n as nat);
            }
        }
    }
    if !start.is_valid() {
        proof {
            if forward {
                lemma_days_after(event.start.date, n as nat);
                crate::date::lemma_days_after(event.start.date, span as nat);
                crate::date::lemma_days_after_add(event.start.date, span as nat, n as nat);
                crate::date::lemma_days_after_add(event.start.date, n as nat, span as nat);
                assert(span as nat + n as nat == n as nat + span as nat);
                lemma_days_after(start, span as nat);
            }
        }
        return None;
    }
    let end = add_days(start, span);
    proof {
        lemma_days_after(start, span as nat);
        crate::date::lemma_days_after_add(event.start.date, span as nat, n as nat);
        crate::date::lemma_days_after_add(event.start.date, n as nat, span as nat);
        crate::date::lemma_days_after_add(start, span as nat, n as nat);
        crate::date::lemma_days_after_add(start, n as nat, span as nat);
        assert(span as nat + n as nat == n as nat + span as nat);
        if !forward {
            assert(days_after(end, n as nat) == event.end.date);
            lemma_days_after(end, n as nat);
        }
    }
    if !end.is_valid() {
        return None;
    }
    let mut moved = event.duplicate();
    moved.start = Timestamp { date: start, seconds: event.start.seconds };
    moved.end = Timestamp { date: end, seconds: event.end.seconds };
    proof {
        assert(moved@ == with_dates(event@, start, end));
    }
    Some(moved)
}

/// A series that does not repeat has exactly one occurrence in a window when
/// its start date lies in the window, and none otherwise; that occurrence
/// keeps the master uid.
pub proof fn lemma_single_occurrence(ev: EventView, range_start: Date, range_end: Date)
    requires
        ev.repeat == RepeatRule::Never,
    ensures
        expansion(ev, range_start, range_end).len() <= 1,
        expansion(ev, range_start, range_end).len() == 1 <==> (date_le(range_start, ev.start.date)
            && date_le(ev.start.date, range_end)),
        expansion(ev, range_start, range_end).len() == 1 ==> expansion(
            ev,
            range_start,
            range_end,
        )[0].1.uid == ev.uid,
{
}

/// An occurrence starts on its own date at the master's time of day and
/// keeps the master's time of day at its end.
pub(crate) proof fn lemma_occurrence_fields(ev: EventView, range_start: Date, range_end: Date, i: int)
    requires
        0 <= i < expansion(ev, range_start, range_end).len(),
    ensures
        expansion(ev, range_start, range_end)[i].1.start.date == expansion(ev, range_start, range_end)[i].0,
        expansion(ev, range_start, range_end)[i].1.start.seconds == ev.start.seconds,
        expansion(ev, range_start, range_end)[i].1.end.seconds == ev.end.seconds,
        expansion(ev, range_start, range_end)[i].1.all_day == ev.all_day,
{
}

/// `ev` with one more exception date.
pub open spec fn with_exception(ev: EventView, x: Date) -> EventView {
    EventView { exception_dates: ev.exception_dates.push(x), ..ev }
}

proof fn lemma_cursor_dates_exception(
    ev: EventView,
    range_start: Date,
    range_end: Date,
    c: Date,
    fuel: nat,
    x: Date,
)
    ensures
        cursor_dates(with_exception(ev, x), range_start, range_end, c, fuel) == cursor_dates(
            ev,
            range_start,
            range_end,
            c,
            fuel,
        ).filter(|d: Date| d != x),
    decreases fuel,
{
    let ev2 = with_exception(ev, x);
    let f = |d: Date| d != x;
    if fuel == 0 || !date_le(c, recurrence_end(ev, range_end)) || !date_le(c, range_end) {
        assert(Seq::<Date>::empty().filter(f) =~= Seq::<Date>::empty());
    } else {
        let here = if date_le(range_start, c) && !ev.exception_dates.contains(c) {
            seq![c]
        } else {
            Seq::<Date>::empty()
        };
        let here2 = if date_le(range_start, c) && !ev2.exception_dates.contains(c) {
            seq![c]
        } else {
            Seq::<Date>::empty()
        };
        assert(ev2.exception_dates.contains(c) <==> (ev.exception_dates.contains(c) || c == x)) by {
            if ev.exception_dates.contains(c) {
                let i = choose|i: int| 0 <= i < ev.exception_dates.len() && ev.exception_dates[i] == c;
                assert(ev2.exception_dates[i] == c);
            }
            if c == x {
                assert(ev2.exception_dates[ev.exception_dates.len() as int] == c);
            }
            if ev2.exception_dates.contains(c) {
                let i = choose|i: int| 0 <= i < ev2.exception_dates.len() && ev2.exception_dates[i] == c;
                if i < ev.exception_dates.len() {
                    assert(ev.exception_dates[i] == c);
                }
            }
        }
        reveal(Seq::filter);
        assert(here.filter(f) =~= here2) by {
            if here.len() == 1 {
                assert(here.drop_last() =~= Seq::<Date>::empty());
                assert(Seq::<Date>::empty().filter(f) =~= Seq::<Date>::empty());
            } else {
                assert(here =~= Seq::<Date>::empty());
                assert(Seq::<Date>::empty().filter(f) =~= Seq::<Date>::empty());
            }
        }
        match advance(ev.repeat, c) {
            Some(n) => {
                lemma_cursor_dates_exception(ev, range_start, range_end, n, (fuel - 1) as nat, x);
                Seq::filter_distributes_over_add(
                    here,
                    cursor_dates(ev, range_start, range_end, n, (fuel - 1) as nat),
                    f,
                );
            },
            None => {},
        }
    }
}

/// Adding a date to the exception dates of a repeating series removes the
/// occurrence on that date, and no other, from every window.
pub proof fn lemma_exception_removes_occurrence(
    ev: EventView,
    range_start: Date,
    range_end: Date,
    x: Date,
)
    requires
        ev.repeat != RepeatRule::Never,
    ensures
        occurrence_dates(with_exception(ev, x), range_start, range_end) == occurrence_dates(
            ev,
            range_start,
            range_end,
        ).filter(|d: Date| d != x),
{
    lemma_cursor_dates_exception(ev, range_start, range_end, ev.start.date, MAX_ITERATIONS as nat, x);
}

/// Removes the single occurrence that `occurrence_id` names from the series
/// `master`, by adding its date to the exception dates; the stored series is
/// otherwise unchanged. Returns `false`, changing nothing, when the identifier
/// names no occurrence of this series.
pub fn suppress_occurrence(master: &mut CalendarEvent, occurrence_id: &str) -> (r: bool)
    ensures
        r == (occurrence_date_of(occurrence_id@) is Some && master_uid_of(occurrence_id@) == old(
            master,
        ).uid@),
        r ==> final(master)@ == with_exception(old(master)@, occurrence_date_of(occurrence_id@)->0),
        !r ==> final(master)@ == old(master)@,
{
    let target = extract_master_uid(occurrence_id);
    if !text_eq(target, master.uid.as_str()) {
        return false;
    }
    match extract_occurrence_date(occurrence_id) {
        Some(d) => {
            master.exception_dates.push(d);
            true
        },
        None => false,
    }
}

proof fn lemma_cursor_dates_len(ev: EventView, range_start: Date, range_end: Date, c: Date, fuel: nat)
    ensures
        cursor_dates(ev, range_start, range_end, c, fuel).len() <= fuel,
    decreases fuel,
{
    if fuel > 0 {
        match advance(ev.repeat, c) {
            Some(n) => lemma_cursor_dates_len(ev, range_start, range_end, n, (fuel - 1) as nat),
            None => {},
        }
    }
}

/// No window holds more than [`MAX_ITERATIONS`] occurrences of a series.
pub proof fn lemma_occurrences_capped(ev: EventView, range_start: Date, range_end: Date)
    ensures
        occurrence_dates(ev, range_start, range_end).len() <= MAX_ITERATIONS,
{
    if ev.repeat != RepeatRule::Never {
        lemma_cursor_dates_len(ev, range_start, range_end, ev.start.date, MAX_ITERATIONS as nat);
    }
}

/// Number of the weeks `k`, from `k` on with `fuel` left, whose day
/// `first + 7k` lies in `[lo, hi]`, stopping at the first one past `hi`.
pub open spec fn weekly_hits(first: int, lo: int, hi: int, k: int, fuel: nat) -> int
    decreases fuel,
{
    if fuel == 0 || first + 7 * k > hi {
        0
    } else {
        (if lo <= first + 7 * k { 1int } else { 0int }) + weekly_hits(first, lo, hi, k + 1, (fuel - 1) as nat)
    }
}

proof fn lemma_weekly_cursor_count(ev: EventView, origin: Date, first: nat, a: nat, len: nat, k: nat, fuel: nat)
    requires
        ev.wf(),
        origin.wf(),
        ev.start.date == days_after(origin, first),
        ev.repeat == RepeatRule::Weekly,
        ev.repeat_until is None,
        ev.exception_dates.len() == 0,
        first <= 7 * MAX_ITERATIONS,
        a + len <= 7 * MAX_ITERATIONS,
        k + fuel <= MAX_ITERATIONS + 1,
    ensures
        cursor_dates(
            ev,
            days_after(origin, a),
            days_after(origin, a + len),
            days_after(origin, first + 7 * k),
            fuel,
        ).len() == weekly_hits(first as int, a as int, (a + len) as int, k as int, fuel),
    decreases fuel,
{
    let c = days_after(origin, first + 7 * k);
    if fuel > 0 {
        lemma_days_after_order(origin, first + 7 * k, (a + len) as nat);
        lemma_days_after_order(origin, a, first + 7 * k);
        assert(!ev.exception_dates.contains(c));
        lemma_days_after_add(origin, first + 7 * k, 7);
        assert(first + 7 * k + 7 == first + 7 * (k + 1));
        lemma_weekly_cursor_count(ev, origin, first, a, len, k + 1, (fuel - 1) as nat);
    }
}

proof fn lemma_weekly_hits_closed(first: int, lo: int, hi: int, k: int, fuel: nat)
    requires
        k >= 0,
    ensures
        ({
            let from_k = (lo - first + 6) / 7;
            let to_k = (hi - first) / 7;
            let from = if k > from_k { k } else { from_k };
            let to = if to_k < k + fuel - 1 { to_k } else { k + fuel - 1 };
            weekly_hits(first, lo, hi, k, fuel) == if to >= from { to - from + 1 } else { 0 }
        }),
    decreases fuel,
{
    if fuel > 0 && first + 7 * k <= hi {
        lemma_weekly_hits_closed(first, lo, hi, k + 1, (fuel - 1) as nat);
    }
}

/// A weekly series without end date or exception dates has at most
/// `(len + 1) / 7 + 1` occurrences in a window of `len + 1` days. When it
/// started on or before the window's first day it has at least `(len + 1) / 7`,
/// exactly one for each week day `first + 7k` inside the window. Both
/// the series start and the window are placed by their day counts from a
/// common date `origin`, and the window ends within the iteration bound.
pub proof fn lemma_weekly_occurrence_count(ev: EventView, origin: Date, first: nat, a: nat, len: nat)
    requires
        ev.wf(),
        origin.wf(),
        ev.start.date == days_after(origin, first),
        ev.repeat == RepeatRule::Weekly,
        ev.repeat_until is None,
        ev.exception_dates.len() == 0,
        first <= 7 * MAX_ITERATIONS,
        a + len < 7 * MAX_ITERATIONS,
    ensures
        ({
            let n = occurrence_dates(ev, days_after(origin, a), days_after(origin, a + len)).len();
            &&& n <= (len + 1) / 7 + 1
            &&& first <= a ==> (len + 1) / 7 <= n
            &&& first <= a ==> n == (a + len - first) / 7 - (a - first + 6) / 7 + 1
        }),
{
    assert(first + 7 * 0nat == first);
    lemma_weekly_cursor_count(ev, origin, first, a, len, 0, MAX_ITERATIONS as nat);
    lemma_weekly_hits_closed(first as int, a as int, (a + len) as int, 0, MAX_ITERATIONS as nat);
    let from_k = (a - first + 6) / 7;
    let to_k = (a + len - first) / 7;
    assert(7 * from_k >= a - first && 7 * from_k <= a - first + 6);
    assert(7 * to_k <= a + len - first && 7 * to_k >= a + len - first - 6);
}

} // verus!
