//! The week shown by the week view.

use vstd::prelude::*;
use chrono::Datelike;
use crate::date::{Date, days_after, add_days, sub_days, MIN_YEAR};
use crate::calendar_state::{weekday_from_monday, weekday_of};
use crate::text::{append_number, number_text};
use crate::locale::Weekday;

verus! {

/// ISO-8601 week number of a date.
pub uninterp spec fn iso_week_number(year: int, month: int, day: int) -> nat;

/// Relies on chrono's `NaiveDate::iso_week` for the ISO week number.
#[verifier::external_body]
pub(crate) fn iso_week(d: Date) -> (r: u32)
    requires
        d.wf(),
    ensures
        r == iso_week_number(d.year as int, d.month as int, d.day as int),
{
    chrono::NaiveDate::from_ymd_opt(d.year, d.month, d.day).unwrap().iso_week().week()
}

/// Days from Monday of a weekday.
pub open spec fn weekday_number(w: Weekday) -> nat {
    match w {
        Weekday::Mon => 0,
        Weekday::Tue => 1,
        Weekday::Wed => 2,
        Weekday::Thu => 3,
        Weekday::Fri => 4,
        Weekday::Sat => 5,
        Weekday::Sun => 6,
    }
}

fn weekday_num(w: Weekday) -> (r: u32)
    ensures
        r == weekday_number(w),
{
    match w {
        Weekday::Mon => 0,
        Weekday::Tue => 1,
        Weekday::Wed => 2,
        Weekday::Thu => 3,
        Weekday::Fri => 4,
        Weekday::Sat => 5,
        Weekday::Sun => 6,
    }
}

/// Days forward from weekday `start` (Monday = 0) to weekday `end`.
pub open spec fn days_between_weekdays(start: nat, end: nat) -> nat {
    if end >= start { (end - start) as nat } else { (7 - (start - end)) as nat }
}

/// English abbreviation of a month.
pub open spec fn month_abbrev(m: int) -> Seq<char> {
    if m == 1 { "Jan"@ } else if m == 2 { "Feb"@ } else if m == 3 { "Mar"@ }
    else if m == 4 { "Apr"@ } else if m == 5 { "May"@ } else if m == 6 { "Jun"@ }
    else if m == 7 { "Jul"@ } else if m == 8 { "Aug"@ } else if m == 9 { "Sep"@ }
    else if m == 10 { "Oct"@ } else if m == 11 { "Nov"@ } else { "Dec"@ }
}

/// Relies on chrono's `%b` formatting: the English month abbreviation.
#[verifier::external_body]
fn month_abbreviation(d: Date) -> (r: String)
    requires
        d.wf(),
    ensures
        r@ == month_abbrev(d.month as int),
{
    chrono::NaiveDate::from_ymd_opt(d.year, d.month, d.day).unwrap().format("%b").to_string()
}

/// Title of a week from `a` to `b`: `Jan 1 - 7, 2024`, `Jan 29 - Feb 4, 2024`,
/// or `Dec 30, 2024 - Jan 5, 2025`.
pub open spec fn week_range_text(a: Date, b: Date) -> Seq<char> {
    if a.month == b.month && a.year == b.year {
        month_abbrev(a.month as int) + " "@ + number_text(a.day as nat) + " - "@ + number_text(b.day as nat) + ", "@
            + number_text(a.year as nat)
    } else if a.year == b.year {
        month_abbrev(a.month as int) + " "@ + number_text(a.day as nat) + " - "@ + month_abbrev(b.month as int) + " "@
            + number_text(b.day as nat) + ", "@ + number_text(a.year as nat)
    } else {
        month_abbrev(a.month as int) + " "@ + number_text(a.day as nat) + ", "@ + number_text(a.year as nat) + " - "@
            + month_abbrev(b.month as int) + " "@ + number_text(b.day as nat) + ", "@ + number_text(b.year as nat)
    }
}

/// The seven days of one week with its title.
#[derive(Debug)]
pub struct WeekState {
    pub year: i32,
    pub week_number: u32,
    /// The seven days, from the first day of the week on.
    pub days: Vec<Date>,
    pub week_range_text: String,
    pub today: Date,
    pub first_day_of_week: Weekday,
}

impl WeekState {
    /// The week that contains `date`, starting on `first_day_of_week`;
    /// `None` when that week leaves the four-digit years.
    pub fn new(date: Date, first_day_of_week: Weekday, today: Date) -> (r: Option<WeekState>)
        requires
            date.wf(),
        ensures
            r matches Some(w) ==> ({
                let back = days_between_weekdays(
                    weekday_number(first_day_of_week),
                    weekday_from_monday(date.year as int, date.month as int, date.day as int),
                );
                &&& w.days@.len() == 7
                &&& days_after(w.days@[0], back) == date
                &&& forall|i: int| 0 <= i < 7 ==> #[trigger] w.days@[i] == days_after(w.days@[0], i as nat)
                    && w.days@[i].wf()
                &&& w.year == date.year
                &&& w.week_number == iso_week_number(date.year as int, date.month as int, date.day as int)
                &&& w.week_range_text@ == week_range_text(w.days@[0], w.days@[6])
                &&& w.today == today
                &&& w.first_day_of_week == first_day_of_week
            }),
            date.year > MIN_YEAR && date.year + 7 <= crate::date::MAX_YEAR ==> r is Some,
    {
        let weekday = weekday_of(date);
        let start = weekday_num(first_day_of_week);
        let back = if weekday >= start { weekday - start } else { 7 - (start - weekday) };
        let first = sub_days(date, back);
        if !first.is_valid() {
            return None;
        }
        let mut days: Vec<Date> = Vec::new();
        let mut i: u32 = 0;
        while i < 7
            invariant
                i <= 7,
                first.wf(),
                days@.len() == i,
                forall|j: int| 0 <= j < i ==> #[trigger] days@[j] == days_after(first, j as nat) && days@[j].wf(),
                date.year > MIN_YEAR && date.year + 7 <= crate::date::MAX_YEAR ==> first.year >= date.year - 1 && first.year <= date.year,
                days_after(first, back as nat) == date,
                back < 7,
                date.wf(),
            decreases 7 - i,
        {
            let d = add_days(first, i);
            proof {
                crate::date::lemma_days_after(first, i as nat);
            }
            if !d.is_valid() {
                return None;
            }
            days.push(d);
            i = i + 1;
        }
        let a = days[0];
        let b = days[6];
        let mut text = month_abbreviation(a);
        text.append(" ");
        append_number(&mut text, a.day);
        if a.month == b.month && a.year == b.year {
            text.append(" - ");
            append_number(&mut text, b.day);
            text.append(", ");
            append_number(&mut text, a.year as u32);
        } else if a.year == b.year {
            text.append(" - ");
            let bm = month_abbreviation(b);
            text.append(bm.as_str());
            text.append(" ");
            append_number(&mut text, b.day);
            text.append(", ");
            append_number(&mut text, a.year as u32);
        } else {
            text.append(", ");
            append_number(&mut text, a.year as u32);
            text.append(" - ");
            let bm = month_abbreviation(b);
            text.append(bm.as_str());
            text.append(" ");
            append_number(&mut text, b.day);
            text.append(", ");
            append_number(&mut text, b.year as u32);
        }
        proof {
            assert(text@ =~= week_range_text(a, b));
        }
        Some(WeekState {
            year: date.year,
            week_number: iso_week(date),
            days,
            week_range_text: text,
            today,
            first_day_of_week,
        })
    }

    /// Whether `date` is today.
    pub fn is_today(&self, date: &Date) -> (r: bool)
        ensures
            r == (*date == self.today),
    {
        *date == self.today
    }

    /// Whether today is one of the days of this week.
    pub fn contains_today(&self) -> (r: bool)
        ensures
            r == self.days@.contains(self.today),
    {
        let mut i: usize = 0;
        while i < self.days.len()
            invariant
                i <= self.days.len(),
                forall|j: int| 0 <= j < i ==> self.days@[j] != self.today,
            decreases self.days.len() - i,
        {
            if self.days[i] == self.today {
                return true;
            }
            i = i + 1;
        }
        false
    }
}

} // verus!
