//! Civil dates of the proleptic Gregorian calendar and UTC timestamps.
//!
//! Dates carry four-digit years (0 through 9999), which is what the stored
//! ISO-8601 and RFC 3339 texts and the `YYYYMMDD` occurrence suffix can hold.

use vstd::prelude::*;
use chrono::Datelike;
use chrono::Timelike;

verus! {

/// Smallest year a [`Date`] may carry.
pub const MIN_YEAR: i32 = 0;

/// Largest year a [`Date`] may carry.
pub const MAX_YEAR: i32 = 9999;

/// Seconds in one civil day.
pub const SECONDS_PER_DAY: u32 = 86400;

pub open spec fn is_leap_year(y: int) -> bool {
    (y % 4 == 0 && y % 100 != 0) || y % 400 == 0
}

pub open spec fn days_in_month(y: int, m: int) -> int {
    if m == 2 {
        if is_leap_year(y) { 29 } else { 28 }
    } else if m == 4 || m == 6 || m == 9 || m == 11 {
        30
    } else {
        31
    }
}

/// Month and day name an existing day of year `y`.
pub open spec fn valid_ymd(y: int, m: int, d: int) -> bool {
    1 <= m <= 12 && 1 <= d <= days_in_month(y, m)
}

/// A calendar date.
#[derive(Clone, Copy, Debug, PartialEq, Eq, Structural, Hash)]
pub struct Date {
    pub year: i32,
    pub month: u32,
    pub day: u32,
}

/// The day after `d`.
pub open spec fn next_day(d: Date) -> Date {
    if (d.day as int) < days_in_month(d.year as int, d.month as int) {
        Date { year: d.year, month: d.month, day: (d.day + 1) as u32 }
    } else if d.month < 12 {
        Date { year: d.year, month: (d.month + 1) as u32, day: 1 }
    } else {
        Date { year: (d.year + 1) as i32, month: 1, day: 1 }
    }
}

/// The date `n` days after `d`.
pub open spec fn days_after(d: Date, n: nat) -> Date
    decreases n,
{
    if n == 0 {
        d
    } else {
        next_day(days_after(d, (n - 1) as nat))
    }
}

/// The date `k` months after `d`; a day past the end of the target month
/// becomes that month's last day.
pub open spec fn months_after(d: Date, k: nat) -> Date {
    let total = d.year * 12 + (d.month - 1) + k;
    let y = total / 12;
    let m = total % 12 + 1;
    let last = days_in_month(y, m);
    Date { year: y as i32, month: m as u32, day: (if (d.day as int) <= last { d.day as int } else { last }) as u32 }
}

/// `a` falls on or before `b`.
pub open spec fn date_le(a: Date, b: Date) -> bool {
    a.year < b.year || (a.year == b.year && (a.month < b.month || (a.month == b.month
        && a.day <= b.day)))
}

pub open spec fn digit_char(k: nat) -> char {
    if k == 0 { '0' } else if k == 1 { '1' } else if k == 2 { '2' } else if k == 3 { '3' }
    else if k == 4 { '4' } else if k == 5 { '5' } else if k == 6 { '6' } else if k == 7 { '7' }
    else if k == 8 { '8' } else { '9' }
}

/// `n` written in decimal with exactly `width` digits (leading zeros kept).
pub open spec fn decimal(n: nat, width: nat) -> Seq<char>
    decreases width,
{
    if width == 0 {
        Seq::empty()
    } else {
        decimal(n / 10, (width - 1) as nat).push(digit_char(n % 10))
    }
}

/// `YYYYMMDD`.
pub open spec fn compact_text(d: Date) -> Seq<char> {
    decimal(d.year as nat, 4) + decimal(d.month as nat, 2) + decimal(d.day as nat, 2)
}

/// `YYYY-MM-DD`.
pub open spec fn iso_text(d: Date) -> Seq<char> {
    decimal(d.year as nat, 4) + seq!['-'] + decimal(d.month as nat, 2) + seq!['-'] + decimal(
        d.day as nat,
        2,
    )
}

/// An existing day of a year that is not negative (no upper bound on the year).
pub open spec fn civil_ok(d: Date) -> bool {
    d.year >= 0 && valid_ymd(d.year as int, d.month as int, d.day as int)
}

/// The number of days from `a` to a date `b` on or after it.
pub open spec fn span_days(a: Date, b: Date) -> nat {
    choose|n: nat| n <= MAX_SPAN_DAYS && days_after(a, n) == b
}

/// Largest number of days between two dates that the library handles.
pub const MAX_SPAN_DAYS: u32 = 4_000_000;

pub proof fn lemma_next_day(d: Date)
    requires
        civil_ok(d),
        d.year < i32::MAX,
    ensures
        civil_ok(next_day(d)),
        date_le(d, next_day(d)),
        d != next_day(d),
        next_day(d).year <= d.year + 1,
{
}

/// Moving forward keeps a date valid and never moves it back.
pub proof fn lemma_days_after(d: Date, n: nat)
    requires
        civil_ok(d),
        d.year + n < i32::MAX,
    ensures
        civil_ok(days_after(d, n)),
        date_le(d, days_after(d, n)),
        n > 0 ==> days_after(d, n) != d,
        days_after(d, n).year <= d.year + n,
    decreases n,
{
    if n > 0 {
        lemma_days_after(d, (n - 1) as nat);
        lemma_next_day(days_after(d, (n - 1) as nat));
    }
}

pub proof fn lemma_days_after_add(d: Date, n: nat, m: nat)
    ensures
        days_after(d, n + m) == days_after(days_after(d, n), m),
    decreases m,
{
    if m > 0 {
        lemma_days_after_add(d, n, (m - 1) as nat);
        assert((n + m - 1) as nat == n + (m - 1) as nat);
    }
}

/// Distinct day counts from a valid date reach distinct dates.
pub proof fn lemma_days_after_unique(a: Date, n1: nat, n2: nat)
    requires
        civil_ok(a),
        a.year + n1 + n2 < i32::MAX,
        days_after(a, n1) == days_after(a, n2),
    ensures
        n1 == n2,
{
    if n1 < n2 {
        lemma_days_after(a, n1);
        lemma_days_after_add(a, n1, (n2 - n1) as nat);
        assert(n1 + (n2 - n1) as nat == n2);
        lemma_days_after(days_after(a, n1), (n2 - n1) as nat);
    } else if n2 < n1 {
        lemma_days_after(a, n2);
        lemma_days_after_add(a, n2, (n1 - n2) as nat);
        assert(n2 + (n1 - n2) as nat == n1);
        lemma_days_after(days_after(a, n2), (n1 - n2) as nat);
    }
}

/// A day count that reaches `b` is the one `span_days` names.
pub proof fn lemma_span_days(a: Date, b: Date, n: nat)
    requires
        civil_ok(a),
        a.year <= MAX_YEAR,
        n <= MAX_SPAN_DAYS,
        days_after(a, n) == b,
    ensures
        span_days(a, b) == n,
{
    let k = span_days(a, b);
    assert(days_after(a, k) == b);
    if k > n {
        lemma_days_after(a, n);
        lemma_days_after_add(a, n, (k - n) as nat);
        assert(n + (k - n) as nat == k);
        lemma_days_after(b, (k - n) as nat);
    } else {
        lemma_days_after_unique(a, k, n);
    }
}

/// Counting days from one date orders the dates reached as the counts.
pub proof fn lemma_days_after_order(s: Date, x: nat, y: nat)
    requires
        civil_ok(s),
        s.year <= MAX_YEAR,
        x <= 100_000,
        y <= 100_000,
    ensures
        date_le(days_after(s, x), days_after(s, y)) == (x <= y),
{
    if x <= y {
        lemma_days_after(s, x);
        lemma_days_after_add(s, x, (y - x) as nat);
        assert(x + (y - x) as nat == y);
        lemma_days_after(days_after(s, x), (y - x) as nat);
    } else {
        lemma_days_after(s, y);
        lemma_days_after_add(s, y, (x - y) as nat);
        assert(y + (x - y) as nat == x);
        lemma_days_after(days_after(s, y), (x - y) as nat);
    }
}

pub proof fn lemma_months_after(d: Date, k: nat)
    requires
        civil_ok(d),
        d.year <= MAX_YEAR,
        k <= 12,
    ensures
        civil_ok(months_after(d, k)),
        d.year <= months_after(d, k).year <= d.year + 2,
{
    let total = d.year * 12 + (d.month - 1) + k;
    assert(d.year * 12 <= total < d.year * 12 + 24);
    assert(d.year <= total / 12 <= d.year + 2) by (nonlinear_arith)
        requires
            d.year * 12 <= total < d.year * 12 + 24,
    ;
}

impl Date {
    /// A date this library can hold: an existing day with a four-digit year.
    pub open spec fn wf(self) -> bool {
        MIN_YEAR <= self.year <= MAX_YEAR && valid_ymd(
            self.year as int,
            self.month as int,
            self.day as int,
        )
    }

    /// The date of `year`, `month`, `day`, if it exists and its year has four digits.
    pub fn from_ymd(year: i32, month: u32, day: u32) -> (r: Option<Date>)
        ensures
            r is Some <==> (MIN_YEAR <= year <= MAX_YEAR && valid_ymd(
                year as int,
                month as int,
                day as int,
            )),
            r is Some ==> r->0 == (Date { year, month, day }),
    {
        if year < MIN_YEAR || year > MAX_YEAR {
            return None;
        }
        match checked_ymd(year, month, day) {
            Some(d) => Some(d),
            None => None,
        }
    }

    /// Whether this is a date the library can hold.
    pub fn is_valid(&self) -> (r: bool)
        ensures
            r == self.wf(),
    {
        MIN_YEAR <= self.year && self.year <= MAX_YEAR && 1 <= self.month && self.month <= 12
            && 1 <= self.day && self.day <= month_length(self.year, self.month)
    }

    /// `self` falls on or before `other`.
    pub fn at_or_before(&self, other: &Date) -> (r: bool)
        ensures
            r == date_le(*self, *other),
    {
        self.year < other.year || (self.year == other.year && (self.month < other.month || (
        self.month == other.month && self.day <= other.day)))
    }
}

/// Number of days in `month` of `year`.
pub fn month_length(year: i32, month: u32) -> (r: u32)
    requires
        year >= 0,
    ensures
        r == days_in_month(year as int, month as int),
{
    if month == 2 {
        if (year % 4 == 0 && year % 100 != 0) || year % 400 == 0 {
            29
        } else {
            28
        }
    } else if month == 4 || month == 6 || month == 9 || month == 11 {
        30
    } else {
        31
    }
}

/// Relies on chrono's `NaiveDate::from_ymd_opt`: a date exactly when month and
/// day name an existing day of that year.
#[verifier::external_body]
fn checked_ymd(year: i32, month: u32, day: u32) -> (r: Option<Date>)
    requires
        MIN_YEAR <= year <= MAX_YEAR,
    ensures
        r is Some <==> valid_ymd(year as int, month as int, day as int),
        r is Some ==> r->0 == (Date { year, month, day }),
{
    chrono::NaiveDate::from_ymd_opt(year, month, day).map(|d| Date { year: d.year(), month: d.month(), day: d.day() })
}

/// Relies on chrono's `NaiveDate::checked_add_days`: the date `n` days later.
/// The bound on `n` keeps the result inside chrono's range.
#[verifier::external_body]
pub(crate) fn add_days(d: Date, n: u32) -> (r: Date)
    requires
        d.wf(),
        n <= MAX_SPAN_DAYS,
    ensures
        r == days_after(d, n as nat),
{
    let nd = chrono::NaiveDate::from_ymd_opt(d.year, d.month, d.day).unwrap();
    let r = nd.checked_add_days(chrono::Days::new(n as u64)).unwrap();
    Date { year: r.year(), month: r.month(), day: r.day() }
}

/// Relies on chrono's `NaiveDate::checked_sub_days`: the date `n` days
/// earlier, which for a month or less lies in the same or the previous year.
/// The bound on `n` keeps the result inside chrono's range.
#[verifier::external_body]
pub(crate) fn sub_days(d: Date, n: u32) -> (r: Date)
    requires
        d.wf(),
        n <= MAX_SPAN_DAYS,
    ensures
        days_after(r, n as nat) == d,
        valid_ymd(r.year as int, r.month as int, r.day as int),
        d.year - n <= r.year <= d.year,
        n <= 28 ==> d.year - 1 <= r.year,
{
    let nd = chrono::NaiveDate::from_ymd_opt(d.year, d.month, d.day).unwrap();
    let r = nd.checked_sub_days(chrono::Days::new(n as u64)).unwrap();
    Date { year: r.year(), month: r.month(), day: r.day() }
}

/// Relies on chrono's `NaiveDate::checked_add_months`: the same day `k`
/// months later, clamped to the last day of a shorter month.
#[verifier::external_body]
pub(crate) fn add_months(d: Date, k: u32) -> (r: Date)
    requires
        d.wf(),
        k <= 12,
    ensures
        r == months_after(d, k as nat),
{
    let nd = chrono::NaiveDate::from_ymd_opt(d.year, d.month, d.day).unwrap();
    let r = nd.checked_add_months(chrono::Months::new(k)).unwrap();
    Date { year: r.year(), month: r.month(), day: r.day() }
}

/// Relies on chrono's `NaiveDate::signed_duration_since`: the number of whole
/// days from `a` to the later date `b`.
#[verifier::external_body]
pub(crate) fn days_between(a: Date, b: Date) -> (r: u32)
    requires
        a.wf(),
        b.wf(),
        date_le(a, b),
    ensures
        days_after(a, r as nat) == b,
        r <= MAX_SPAN_DAYS,
{
    let na = chrono::NaiveDate::from_ymd_opt(a.year, a.month, a.day).unwrap();
    let nb = chrono::NaiveDate::from_ymd_opt(b.year, b.month, b.day).unwrap();
    nb.signed_duration_since(na).num_days() as u32
}

/// Relies on chrono's `%Y%m%d` formatting: four-digit year, two-digit month
/// and day, zero padded.
#[verifier::external_body]
pub(crate) fn format_compact(d: Date) -> (r: String)
    requires
        d.wf(),
    ensures
        r@ == compact_text(d),
{
    chrono::NaiveDate::from_ymd_opt(d.year, d.month, d.day).unwrap().format("%Y%m%d").to_string()
}

/// Relies on chrono's `%Y-%m-%d` formatting.
#[verifier::external_body]
pub(crate) fn format_iso(d: Date) -> (r: String)
    requires
        d.wf(),
    ensures
        r@ == iso_text(d),
{
    chrono::NaiveDate::from_ymd_opt(d.year, d.month, d.day).unwrap().format("%Y-%m-%d").to_string()
}

/// What chrono's `NaiveDate::parse_from_str` with `%Y-%m-%d` reads from a text.
pub uninterp spec fn iso_date_parsed(s: Seq<char>) -> Option<Date>;

/// Relies on chrono's `NaiveDate::parse_from_str` with `%Y-%m-%d`: any text
/// that chrono itself writes for a date reads back as that date.
#[verifier::external_body]
pub(crate) fn parse_iso(s: &str) -> (r: Option<Date>)
    ensures
        r == iso_date_parsed(s@),
        forall|d: Date| #[trigger] iso_text(d) == s@ && d.wf() ==> r == Some(d),
        r is Some ==> valid_ymd(r->0.year as int, r->0.month as int, r->0.day as int),
{
    chrono::NaiveDate::parse_from_str(s, "%Y-%m-%d").ok().map(|d| Date { year: d.year(), month: d.month(), day: d.day() })
}

/// A UTC instant with one-second resolution: a date and the seconds since its midnight.
#[derive(Clone, Copy, Debug, PartialEq, Eq, Structural, Hash)]
pub struct Timestamp {
    pub date: Date,
    pub seconds: u32,
}

/// `HH:MM:SS` of a second of the day.
pub open spec fn clock_text(secs: nat) -> Seq<char> {
    decimal(secs / 3600, 2) + seq![':'] + decimal((secs % 3600) / 60, 2) + seq![':'] + decimal(
        secs % 60,
        2,
    )
}

/// The RFC 3339 text of a UTC instant: `YYYY-MM-DDTHH:MM:SS+00:00`.
pub open spec fn rfc3339_text(t: Timestamp) -> Seq<char> {
    iso_text(t.date) + seq!['T'] + clock_text(t.seconds as nat) + seq!['+', '0', '0', ':', '0', '0']
}

/// `a` is not later than `b`.
pub open spec fn timestamp_le(a: Timestamp, b: Timestamp) -> bool {
    (date_le(a.date, b.date) && a.date != b.date) || (a.date == b.date && a.seconds <= b.seconds)
}

impl Timestamp {
    pub open spec fn wf(self) -> bool {
        self.date.wf() && self.seconds < SECONDS_PER_DAY
    }

    /// Whether this is an instant the library can hold.
    pub fn is_valid(&self) -> (r: bool)
        ensures
            r == self.wf(),
    {
        self.date.is_valid() && self.seconds < SECONDS_PER_DAY
    }

    /// Hour of the day, 0 through 23.
    pub fn hour(&self) -> (r: u32)
        requires
            self.seconds < SECONDS_PER_DAY,
        ensures
            r == self.seconds / 3600,
            r < 24,
    {
        self.seconds / 3600
    }

    /// Minute of the hour, 0 through 59.
    pub fn minute(&self) -> (r: u32)
        requires
            self.seconds < SECONDS_PER_DAY,
        ensures
            r == (self.seconds % 3600) / 60,
            r < 60,
    {
        (self.seconds % 3600) / 60
    }
}

/// Relies on chrono's `DateTime::<Utc>::to_rfc3339`: whole seconds are written
/// without a fraction and the UTC offset as `+00:00`.
#[verifier::external_body]
pub(crate) fn format_rfc3339(t: Timestamp) -> (r: String)
    requires
        t.wf(),
    ensures
        r@ == rfc3339_text(t),
{
    let d = chrono::NaiveDate::from_ymd_opt(t.date.year, t.date.month, t.date.day).unwrap();
    let time = chrono::NaiveTime::from_num_seconds_from_midnight_opt(t.seconds, 0).unwrap();
    d.and_time(time).and_utc().to_rfc3339()
}

/// What chrono's `DateTime::parse_from_rfc3339`, read in UTC, makes of a text.
pub uninterp spec fn rfc3339_parsed(s: Seq<char>) -> Option<Timestamp>;

/// Relies on chrono's `DateTime::parse_from_rfc3339`, read in UTC: any text that
/// chrono itself writes for an instant reads back as that instant.
#[verifier::external_body]
pub(crate) fn parse_rfc3339(s: &str) -> (r: Option<Timestamp>)
    ensures
        r == rfc3339_parsed(s@),
        forall|t: Timestamp| #[trigger] rfc3339_text(t) == s@ && t.wf() ==> r == Some(t),
{
    chrono::DateTime::parse_from_rfc3339(s).ok().map(|dt| dt.with_timezone(&chrono::Utc)).map(
        |dt| Timestamp {
            date: Date { year: dt.year(), month: dt.month(), day: dt.day() },
            seconds: dt.num_seconds_from_midnight(),
        },
    )
}

} // verus!
