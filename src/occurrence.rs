//! Identifiers of single occurrences of a recurring series.
//!
//! An occurrence is addressed as `"{master_uid}_{YYYYMMDD}"`, so that an action
//! on one occurrence can be traced back to the stored master record and the
//! date it targets, without a stored row of its own.

use vstd::prelude::*;
use vstd::arithmetic::div_mod::lemma_mod_breakdown;
use crate::date::{Date, compact_text, decimal, digit_char, valid_ymd, format_compact};

verus! {

/// Number of digits in the date suffix of an occurrence identifier.
pub const SUFFIX_DIGITS: usize = 8;

pub open spec fn is_digit(c: char) -> bool {
    48 <= (c as u32) <= 57
}

pub open spec fn digit_value(c: char) -> nat {
    ((c as u32) - 48) as nat
}

/// The number that a run of decimal digits spells.
pub open spec fn digits_value(s: Seq<char>) -> nat
    decreases s.len(),
{
    if s.len() == 0 {
        0
    } else {
        digits_value(s.drop_last()) * 10 + digit_value(s.last())
    }
}

pub open spec fn pow10(w: nat) -> nat
    decreases w,
{
    if w == 0 {
        1
    } else {
        10 * pow10((w - 1) as nat)
    }
}

/// Position of the last `c` in `s`, or -1.
pub open spec fn last_index_of(s: Seq<char>, c: char) -> int
    decreases s.len(),
{
    if s.len() == 0 {
        -1
    } else if s.last() == c {
        s.len() - 1
    } else {
        last_index_of(s.drop_last(), c)
    }
}

/// The eight digits after the last underscore, when that is all that follows it.
pub open spec fn occurrence_suffix(s: Seq<char>) -> Option<Seq<char>> {
    let p = last_index_of(s, '_');
    if p >= 0 && s.len() - p - 1 == SUFFIX_DIGITS && (forall|i: int| p < i < s.len() ==> is_digit(s[i])) {
        Some(s.subrange(p + 1, s.len() as int))
    } else {
        None
    }
}

/// The identifier of the occurrence of series `master` on `d`.
pub open spec fn occurrence_uid_text(master: Seq<char>, d: Date) -> Seq<char> {
    master + seq!['_'] + compact_text(d)
}

/// The master identifier behind `s`: `s` without a trailing `_YYYYMMDD`.
pub open spec fn master_uid_of(s: Seq<char>) -> Seq<char> {
    if occurrence_suffix(s) is Some {
        s.subrange(0, last_index_of(s, '_'))
    } else {
        s
    }
}

/// The date that the `_YYYYMMDD` suffix of `s` names, if it names one.
pub open spec fn occurrence_date_of(s: Seq<char>) -> Option<Date> {
    match occurrence_suffix(s) {
        Some(x) => {
            let y = digits_value(x.subrange(0, 4));
            let m = digits_value(x.subrange(4, 6));
            let d = digits_value(x.subrange(6, 8));
            if valid_ymd(y as int, m as int, d as int) {
                Some(Date { year: y as i32, month: m as u32, day: d as u32 })
            } else {
                None
            }
        },
        None => None,
    }
}

/// The identifier of the occurrence of series `master_uid` on `date`.
pub fn occurrence_uid(master_uid: &str, date: Date) -> (r: String)
    requires
        date.wf(),
    ensures
        r@ == occurrence_uid_text(master_uid@, date),
{
    let sep = "_";
    proof {
        reveal_strlit("_");
    }
    let suffix = format_compact(date);
    let r = String::from_str(master_uid).concat(sep);
    r.concat(suffix.as_str())
}

fn last_underscore(s: &str) -> (r: Option<usize>)
    ensures
        match r {
            Some(p) => p as int == last_index_of(s@, '_') && p < s@.len(),
            None => last_index_of(s@, '_') == -1,
        },
{
    let n = s.unicode_len();
    let mut i = n;
    proof {
        assert(s@.subrange(0, n as int) =~= s@);
    }
    while i > 0
        invariant
            i <= n,
            n == s@.len(),
            last_index_of(s@, '_') == last_index_of(s@.subrange(0, i as int), '_'),
        decreases i,
    {
        let c = s.get_char(i - 1);
        if c == '_' {
            return Some(i - 1);
        }
        proof {
            assert(s@.subrange(0, i as int).drop_last() =~= s@.subrange(0, i - 1));
        }
        i = i - 1;
    }
    None
}

fn all_digits(s: &str, from: usize, to: usize) -> (r: bool)
    requires
        from <= to <= s@.len(),
    ensures
        r == (forall|i: int| from <= i < to ==> is_digit(#[trigger] s@[i])),
{
    let mut i = from;
    while i < to
        invariant
            from <= i <= to <= s@.len(),
            forall|j: int| from <= j < i ==> is_digit(#[trigger] s@[j]),
        decreases to - i,
    {
        let c = s.get_char(i);
        if (c as u32) < 48 || (c as u32) > 57 {
            return false;
        }
        i = i + 1;
    }
    true
}

fn digits_at(s: &str, from: usize, to: usize) -> (r: u32)
    requires
        from <= to <= s@.len(),
        to - from <= 4,
        forall|i: int| from <= i < to ==> is_digit(#[trigger] s@[i]),
    ensures
        r == digits_value(s@.subrange(from as int, to as int)),
        r < pow10((to - from) as nat),
{
    let mut v: u32 = 0;
    let mut i = from;
    proof {
        assert(s@.subrange(from as int, from as int) =~= Seq::<char>::empty());
    }
    while i < to
        invariant
            from <= i <= to <= s@.len(),
            to - from <= 4,
            forall|j: int| from <= j < to ==> is_digit(#[trigger] s@[j]),
            v == digits_value(s@.subrange(from as int, i as int)),
            v < pow10((i - from) as nat),
        decreases to - i,
    {
        let c = s.get_char(i);
        assert(is_digit(s@[i as int]));
        proof {
            assert(s@.subrange(from as int, i + 1).drop_last() =~= s@.subrange(from as int, i as int));
            assert(pow10((i + 1 - from) as nat) == 10 * pow10((i - from) as nat));
            reveal_with_fuel(pow10, 5);
            assert(pow10((i - from) as nat) <= 1000);
        }
        v = v * 10 + ((c as u32) - 48);
        i = i + 1;
    }
    v
}

/// The master identifier behind an occurrence identifier; any other
/// identifier is returned unchanged.
pub fn extract_master_uid(uid: &str) -> (r: &str)
    ensures
        r@ == master_uid_of(uid@),
{
    let n = uid.unicode_len();
    if let Some(p) = last_underscore(uid) {
        if n - p - 1 == SUFFIX_DIGITS && all_digits(uid, p + 1, n) {
            return uid.substring_char(0, p);
        }
    }
    uid
}

/// The date named by the suffix of an occurrence identifier; `None` for an
/// identifier without such a suffix or whose suffix is not a calendar date.
pub fn extract_occurrence_date(uid: &str) -> (r: Option<Date>)
    ensures
        r == occurrence_date_of(uid@),
{
    let n = uid.unicode_len();
    if let Some(p) = last_underscore(uid) {
        if n - p - 1 == SUFFIX_DIGITS && all_digits(uid, p + 1, n) {
            let ghost x = uid@.subrange(p + 1, n as int);
            proof {
                assert(x.subrange(0, 4) =~= uid@.subrange(p + 1, p + 5));
                assert(x.subrange(4, 6) =~= uid@.subrange(p + 5, p + 7));
                assert(x.subrange(6, 8) =~= uid@.subrange(p + 7, p + 9));
            }
            let y = digits_at(uid, p + 1, p + 5);
            let m = digits_at(uid, p + 5, p + 7);
            let d = digits_at(uid, p + 7, p + 9);
            proof {
                reveal_with_fuel(pow10, 5);
                assert(pow10(4) == 10000);
            }
            return Date::from_ymd(y as i32, m, d);
        }
    }
    None
}

pub proof fn lemma_pow10_positive(w: nat)
    ensures
        pow10(w) > 0,
    decreases w,
{
    if w > 0 {
        lemma_pow10_positive((w - 1) as nat);
    }
}

pub proof fn lemma_digit_char(k: nat)
    requires
        k < 10,
    ensures
        is_digit(digit_char(k)),
        digit_value(digit_char(k)) == k,
{
}

pub proof fn lemma_decimal(n: nat, w: nat)
    ensures
        decimal(n, w).len() == w,
        forall|i: int| 0 <= i < w ==> is_digit(#[trigger] decimal(n, w)[i]),
        digits_value(decimal(n, w)) == n % pow10(w),
    decreases w,
{
    if w > 0 {
        lemma_decimal(n / 10, (w - 1) as nat);
        lemma_digit_char(n % 10);
        let s = decimal(n, w);
        assert(s.drop_last() =~= decimal(n / 10, (w - 1) as nat));
        lemma_pow10_positive((w - 1) as nat);
        lemma_mod_breakdown(n as int, 10, pow10((w - 1) as nat) as int);
    }
}

/// Appending characters other than `c` keeps the last position of `c`.
pub proof fn lemma_last_index_append(s: Seq<char>, t: Seq<char>, c: char)
    requires
        forall|i: int| 0 <= i < t.len() ==> t[i] != c,
    ensures
        last_index_of(s + t, c) == last_index_of(s, c),
    decreases t.len(),
{
    if t.len() == 0 {
        assert(s + t =~= s);
    } else {
        assert((s + t).drop_last() =~= s + t.drop_last());
        lemma_last_index_append(s, t.drop_last(), c);
    }
}

proof fn lemma_compact_digits(d: Date)
    requires
        d.wf(),
    ensures
        compact_text(d).len() == SUFFIX_DIGITS,
        forall|i: int| 0 <= i < 8 ==> is_digit(#[trigger] compact_text(d)[i]),
        compact_text(d).subrange(0, 4) == decimal(d.year as nat, 4),
        compact_text(d).subrange(4, 6) == decimal(d.month as nat, 2),
        compact_text(d).subrange(6, 8) == decimal(d.day as nat, 2),
{
    lemma_decimal(d.year as nat, 4);
    lemma_decimal(d.month as nat, 2);
    lemma_decimal(d.day as nat, 2);
    let t = compact_text(d);
    assert forall|i: int| 0 <= i < 8 implies is_digit(#[trigger] t[i]) by {
        if i < 4 {
            assert(t[i] == decimal(d.year as nat, 4)[i]);
        } else if i < 6 {
            assert(t[i] == decimal(d.month as nat, 2)[i - 4]);
        } else {
            assert(t[i] == decimal(d.day as nat, 2)[i - 6]);
        }
    }
    assert(t.subrange(0, 4) =~= decimal(d.year as nat, 4));
    assert(t.subrange(4, 6) =~= decimal(d.month as nat, 2));
    assert(t.subrange(6, 8) =~= decimal(d.day as nat, 2));
}

proof fn lemma_occurrence_suffix(master: Seq<char>, d: Date)
    requires
        d.wf(),
    ensures
        last_index_of(occurrence_uid_text(master, d), '_') == master.len(),
        occurrence_suffix(occurrence_uid_text(master, d)) == Some(compact_text(d)),
{
    lemma_compact_digits(d);
    let t = compact_text(d);
    let s = occurrence_uid_text(master, d);
    assert forall|i: int| 0 <= i < t.len() implies t[i] != '_' by {
        assert(is_digit(t[i]));
    }
    lemma_last_index_append(master + seq!['_'], t, '_');
    assert((master + seq!['_']).last() == '_');
    let p = master.len() as int;
    assert forall|i: int| p < i < s.len() implies is_digit(s[i]) by {
        assert(s[i] == t[i - p - 1]);
    }
    assert(s.subrange(p + 1, s.len() as int) =~= t);
}

/// Stripping the suffix from an occurrence identifier gives back the master
/// identifier, whatever that identifier holds.
pub proof fn lemma_master_of_occurrence_uid(master: Seq<char>, d: Date)
    requires
        d.wf(),
    ensures
        master_uid_of(occurrence_uid_text(master, d)) == master,
{
    lemma_occurrence_suffix(master, d);
    assert(occurrence_uid_text(master, d).subrange(0, master.len() as int) =~= master);
}

/// The suffix of an occurrence identifier reads back as its date.
pub proof fn lemma_occurrence_date_round_trip(master: Seq<char>, d: Date)
    requires
        d.wf(),
    ensures
        occurrence_date_of(occurrence_uid_text(master, d)) == Some(d),
{
    lemma_occurrence_suffix(master, d);
    lemma_compact_digits(d);
    reveal_with_fuel(pow10, 5);
    assert(pow10(4) == 10000);
    assert(pow10(2) == 100);
    lemma_decimal(d.year as nat, 4);
    lemma_decimal(d.month as nat, 2);
    lemma_decimal(d.day as nat, 2);
    assert(digits_value(decimal(d.year as nat, 4)) == d.year);
    assert(digits_value(decimal(d.month as nat, 2)) == d.month);
    assert(digits_value(decimal(d.day as nat, 2)) == d.day);
}

/// An identifier that names no occurrence (its master identifier is itself)
/// has no occurrence date.
pub proof fn lemma_plain_uid_has_no_date(s: Seq<char>)
    requires
        master_uid_of(s) == s,
    ensures
        occurrence_date_of(s) is None,
{
    if occurrence_suffix(s) is Some {
        assert(master_uid_of(s).len() < s.len());
    }
}

} // verus!
