//! The month grid shown by the month view.

use vstd::prelude::*;
use chrono::Datelike;
use crate::date::{Date, decimal, month_length, days_in_month, valid_ymd, MIN_YEAR, MAX_YEAR};
use crate::week_state::{iso_week, iso_week_number};

verus! {

/// A month laid out as weeks of seven cells, with the day of today.
#[derive(Debug)]
pub struct CalendarState {
    pub year: i32,
    pub month: u32,
    /// Rows of seven cells; a cell holds its day of the month or nothing.
    pub weeks: Vec<Vec<Option<u32>>>,
    /// Today as year, month and day.
    pub today: (i32, u32, u32),
    /// Title of the month, such as `January 2025`.
    pub month_year_text: String,
}

/// Weekday of a date, counted from Monday (0) to Sunday (6).
pub uninterp spec fn weekday_from_monday(year: int, month: int, day: int) -> nat;

/// Relies on chrono's `Weekday::num_days_from_monday` for the date's weekday.
#[verifier::external_body]
pub(crate) fn weekday_of(d: Date) -> (r: u32)
    requires
        d.wf(),
    ensures
        r == weekday_from_monday(d.year as int, d.month as int, d.day as int),
        r < 7,
{
    chrono::NaiveDate::from_ymd_opt(d.year, d.month, d.day).unwrap().weekday().num_days_from_monday()
}

/// English name of a month.
pub open spec fn month_name(m: int) -> Seq<char> {
    if m == 1 { "January"@ } else if m == 2 { "February"@ } else if m == 3 { "March"@ }
    else if m == 4 { "April"@ } else if m == 5 { "May"@ } else if m == 6 { "June"@ }
    else if m == 7 { "July"@ } else if m == 8 { "August"@ } else if m == 9 { "September"@ }
    else if m == 10 { "October"@ } else if m == 11 { "November"@ } else { "December"@ }
}

/// Relies on chrono's `%B %Y` formatting: the English month name, a space,
/// and the four-digit year.
#[verifier::external_body]
fn month_title(d: Date) -> (r: String)
    requires
        d.wf(),
    ensures
        r@ == month_name(d.month as int) + seq![' '] + decimal(d.year as nat, 4),
{
    chrono::NaiveDate::from_ymd_opt(d.year, d.month, d.day).unwrap().format("%B %Y").to_string()
}

/// Cell `i` of a month grid whose first `lead` cells precede day 1 of a
/// month of `days` days.
pub open spec fn grid_cell(lead: int, days: int, i: int) -> Option<u32> {
    if i < lead {
        None
    } else if i < lead + days {
        Some((i - lead + 1) as u32)
    } else {
        None
    }
}

/// Number of weeks in the grid of such a month.
pub open spec fn grid_weeks(lead: int, days: int) -> int {
    (lead + days + 6) / 7
}

/// The first day number held by a row of the grid.
pub open spec fn first_day_in(week: Seq<Option<u32>>) -> Option<u32>
    decreases week.len(),
{
    if week.len() == 0 {
        None
    } else if week[0] is Some {
        week[0]
    } else {
        first_day_in(week.subrange(1, week.len() as int))
    }
}

/// ISO week number of a row of the grid of `month` in `year`: that of its
/// first day, or 0 for a row without a valid day.
pub open spec fn row_week_number(year: int, month: int, week: Seq<Option<u32>>) -> nat {
    match first_day_in(week) {
        Some(d) => if MIN_YEAR <= year <= MAX_YEAR && valid_ymd(year, month, d as int) {
            iso_week_number(year, month, d as int)
        } else {
            0
        },
        None => 0,
    }
}

fn first_day(week: &Vec<Option<u32>>) -> (r: Option<u32>)
    ensures
        r == first_day_in(week@),
{
    let mut i: usize = 0;
    proof {
        assert(week@.subrange(0, week@.len() as int) =~= week@);
    }
    while i < week.len()
        invariant
            i <= week.len(),
            first_day_in(week@) == first_day_in(week@.subrange(i as int, week@.len() as int)),
        decreases week.len() - i,
    {
        proof {
            let rest = week@.subrange(i as int, week@.len() as int);
            assert(rest.subrange(1, rest.len() as int) =~= week@.subrange(i + 1, week@.len() as int));
        }
        if let Some(d) = week[i] {
            return Some(d);
        }
        i = i + 1;
    }
    proof {
        assert(week@.subrange(i as int, week@.len() as int).len() == 0);
    }
    None
}

impl CalendarState {
    /// The grid of `month` in `year`: weeks from Monday to Sunday, with the
    /// days before the first and after the last of the month left empty.
    pub fn new(year: i32, month: u32, today: (i32, u32, u32)) -> (r: CalendarState)
        requires
            (Date { year, month, day: 1 }).wf(),
        ensures
            r.year == year,
            r.month == month,
            r.today == today,
            ({
                let lead = weekday_from_monday(year as int, month as int, 1) as int;
                let days = days_in_month(year as int, month as int);
                &&& r.weeks@.len() == grid_weeks(lead, days)
                &&& forall|w: int| 0 <= w < r.weeks@.len() ==> (#[trigger] r.weeks@[w])@.len() == 7
                &&& forall|w: int, c: int|
                    0 <= w < r.weeks@.len() && 0 <= c < 7 ==> #[trigger] r.weeks@[w]@[c] == grid_cell(
                        lead,
                        days,
                        7 * w + c,
                    )
            }),
            r.month_year_text@ == month_name(month as int) + seq![' '] + decimal(year as nat, 4),
    {
        let first = Date { year, month, day: 1 };
        let lead = weekday_of(first);
        let days = month_length(year, month);
        let total = lead + days;
        let n_weeks = (total + 6) / 7;
        let mut weeks: Vec<Vec<Option<u32>>> = Vec::new();
        let mut w: u32 = 0;
        while w < n_weeks
            invariant
                w <= n_weeks,
                n_weeks == (total + 6) / 7,
                total == lead + days,
                lead < 7,
                days <= 31,
                weeks@.len() == w,
                forall|v: int| 0 <= v < w ==> (#[trigger] weeks@[v])@.len() == 7,
                forall|v: int, c: int|
                    0 <= v < w && 0 <= c < 7 ==> #[trigger] weeks@[v]@[c] == grid_cell(
                        lead as int,
                        days as int,
                        7 * v + c,
                    ),
            decreases n_weeks - w,
        {
            let mut week: Vec<Option<u32>> = Vec::new();
            let mut c: u32 = 0;
            while c < 7
                invariant
                    c <= 7,
                    w < n_weeks,
                    n_weeks == (total + 6) / 7,
                    total == lead + days,
                    lead < 7,
                    days <= 31,
                    week@.len() == c,
                    forall|k: int| 0 <= k < c ==> week@[k] == grid_cell(lead as int, days as int, 7 * w + k),
                decreases 7 - c,
            {
                let i = w * 7 + c;
                let cell = if i < lead {
                    None
                } else if i < total {
                    Some(i - lead + 1)
                } else {
                    None
                };
                week.push(cell);
                c = c + 1;
            }
            let ghost prev = weeks@;
            weeks.push(week);
            proof {
                assert(weeks@ == prev.push(week));
                assert forall|v: int| 0 <= v < w + 1 implies (#[trigger] weeks@[v])@.len() == 7 by {
                    if v < w {
                        assert(weeks@[v] == prev[v]);
                    }
                }
                assert forall|v: int, c: int|
                    0 <= v < w + 1 && 0 <= c < 7 implies #[trigger] weeks@[v]@[c] == grid_cell(
                        lead as int,
                        days as int,
                        7 * v + c,
                    ) by {
                    if v < w {
                        assert(weeks@[v] == prev[v]);
                    }
                }
            }
            w = w + 1;
        }
        CalendarState {
            year,
            month,
            weeks,
            today,
            month_year_text: month_title(first),
        }
    }

    /// The ISO week number of each row of the grid.
    pub fn week_numbers(&self) -> (r: Vec<u32>)
        ensures
            r@.len() == self.weeks@.len(),
            forall|i: int| 0 <= i < r@.len() ==> #[trigger] r@[i] == row_week_number(
                self.year as int,
                self.month as int,
                self.weeks@[i]@,
            ),
    {
        let mut r: Vec<u32> = Vec::new();
        let mut i: usize = 0;
        while i < self.weeks.len()
            invariant
                i <= self.weeks.len(),
                r@.len() == i,
                forall|j: int| 0 <= j < i ==> #[trigger] r@[j] == row_week_number(
                    self.year as int,
                    self.month as int,
                    self.weeks@[j]@,
                ),
            decreases self.weeks.len() - i,
        {
            let n = match first_day(&self.weeks[i]) {
                Some(d) => match Date::from_ymd(self.year, self.month, d) {
                    Some(date) => iso_week(date),
                    None => 0,
                },
                None => 0,
            };
            r.push(n);
            i = i + 1;
        }
        r
    }

    /// Whether `day` of the shown month is today.
    pub fn is_today(&self, day: u32) -> (r: bool)
        ensures
            r == (self.today == (self.year, self.month, day)),
    {
        self.today.0 == self.year && self.today.1 == self.month && self.today.2 == day
    }

    /// Whether the shown month contains today.
    pub fn is_current_month(&self) -> (r: bool)
        ensures
            r == (self.today.0 == self.year && self.today.1 == self.month),
    {
        self.today.0 == self.year && self.today.1 == self.month
    }
}

} // verus!
