//! The calendar views and moving the selected date by one period.

use vstd::prelude::*;
use crate::date::{Date, days_after, add_days, sub_days, MIN_YEAR, MAX_YEAR};

verus! {

/// The four calendar views.
#[derive(Clone, Copy, Debug, PartialEq, Eq, Structural, Hash)]
pub enum CalendarView {
    Year,
    Month,
    Week,
    Day,
}

pub open spec fn next_view(v: CalendarView) -> CalendarView {
    match v {
        CalendarView::Year => CalendarView::Month,
        CalendarView::Month => CalendarView::Week,
        CalendarView::Week => CalendarView::Day,
        CalendarView::Day => CalendarView::Year,
    }
}

pub open spec fn previous_view(v: CalendarView) -> CalendarView {
    match v {
        CalendarView::Year => CalendarView::Day,
        CalendarView::Month => CalendarView::Year,
        CalendarView::Week => CalendarView::Month,
        CalendarView::Day => CalendarView::Week,
    }
}

/// Stepping back undoes stepping forward, and the reverse.
pub proof fn lemma_view_cycle(v: CalendarView)
    ensures
        previous_view(next_view(v)) == v,
        next_view(previous_view(v)) == v,
{
}

impl CalendarView {
    /// The next view in the cycle Year, Month, Week, Day, Year.
    pub fn next(self) -> (r: Self)
        ensures
            r == next_view(self),
    {
        match self {
            CalendarView::Year => CalendarView::Month,
            CalendarView::Month => CalendarView::Week,
            CalendarView::Week => CalendarView::Day,
            CalendarView::Day => CalendarView::Year,
        }
    }

    /// The previous view in the cycle Day, Week, Month, Year, Day.
    pub fn previous(self) -> (r: Self)
        ensures
            r == previous_view(self),
    {
        match self {
            CalendarView::Year => CalendarView::Day,
            CalendarView::Month => CalendarView::Year,
            CalendarView::Week => CalendarView::Month,
            CalendarView::Day => CalendarView::Week,
        }
    }
}

/// Direction of a period move.
#[derive(Clone, Copy, Debug, PartialEq, Eq, Structural)]
pub enum NavigationDirection {
    Previous,
    Next,
}

/// `date` moved to the same month and day (at most the 28th) of another year.
pub open spec fn shift_years(date: Date, years: int) -> Option<Date> {
    let y = date.year + years;
    if MIN_YEAR <= y <= MAX_YEAR {
        Some(Date { year: y as i32, month: date.month, day: if date.day <= 28 { date.day } else { 28 } })
    } else {
        None
    }
}

/// `date` moved by `months` months, to the same day (at most the 28th).
pub open spec fn shift_months(date: Date, months: int) -> Option<Date> {
    let total = date.year * 12 + date.month - 1 + months;
    if 0 <= total && total / 12 <= MAX_YEAR {
        Some(Date {
            year: (total / 12) as i32,
            month: (total % 12 + 1) as u32,
            day: if date.day <= 28 { date.day } else { 28 },
        })
    } else {
        None
    }
}

/// The date shown after moving the selection of `view` one period in `direction`.
pub fn navigate_period(view: CalendarView, date: Date, direction: NavigationDirection) -> (r: Option<Date>)
    requires
        date.wf(),
    ensures
        r matches Some(d) ==> d.wf(),
        view == CalendarView::Year ==> r == shift_years(
            date,
            if direction == NavigationDirection::Next { 1 } else { -1 },
        ),
        view == CalendarView::Month ==> r == shift_months(
            date,
            if direction == NavigationDirection::Next { 1 } else { -1 },
        ),
        view == CalendarView::Week || view == CalendarView::Day ==> ({
            let n: nat = if view == CalendarView::Week { 7 } else { 1 };
            if direction == NavigationDirection::Next {
                r == (if days_after(date, n).wf() { Some(days_after(date, n)) } else { None::<Date> })
            } else {
                (r matches Some(d) ==> days_after(d, n) == date) && (date.year > MIN_YEAR ==> r is Some)
            }
        }),
{
    let forward = match direction {
        NavigationDirection::Next => true,
        NavigationDirection::Previous => false,
    };
    let day = if date.day <= 28 { date.day } else { 28 };
    match view {
        CalendarView::Year => {
            let y: i64 = if forward { date.year as i64 + 1 } else { date.year as i64 - 1 };
            if y < MIN_YEAR as i64 || y > MAX_YEAR as i64 {
                None
            } else {
                Some(Date { year: y as i32, month: date.month, day })
            }
        },
        CalendarView::Month => {
            let total: i64 = date.year as i64 * 12 + date.month as i64 - 1 + if forward { 1 } else { -1 };
            if total < 0 || total / 12 > MAX_YEAR as i64 {
                None
            } else {
                Some(Date { year: (total / 12) as i32, month: (total % 12 + 1) as u32, day })
            }
        },
        CalendarView::Week | CalendarView::Day => {
            let n: u32 = if view == CalendarView::Week { 7 } else { 1 };
            let d = if forward { add_days(date, n) } else { sub_days(date, n) };
            if d.is_valid() {
                Some(d)
            } else {
                None
            }
        },
    }
}

} // verus!
