//! Conventions of the user's locale: clock format and first day of the week.

use vstd::prelude::*;
use crate::text::{append_number, has_prefix, lowercase, lowercase_of, number_text, starts_with};

verus! {

/// A day of the week.
#[derive(Clone, Copy, Debug, PartialEq, Eq, Structural, Hash)]
pub enum Weekday {
    Mon,
    Tue,
    Wed,
    Thu,
    Fri,
    Sat,
    Sun,
}

/// Locales that read the clock in twelve hours.
pub open spec fn twelve_hour_prefix(l: Seq<char>) -> bool {
    has_prefix(l, "en_us"@) || has_prefix(l, "en_ca"@) || has_prefix(l, "en_au"@) || has_prefix(
        l,
        "en_nz"@,
    ) || has_prefix(l, "en_ph"@) || has_prefix(l, "fil_ph"@) || has_prefix(l, "tl_ph"@)
}

/// Locales whose week starts on Sunday.
pub open spec fn sunday_prefix(l: Seq<char>) -> bool {
    has_prefix(l, "en_us"@) || has_prefix(l, "en_ca"@) || has_prefix(l, "en_au"@) || has_prefix(
        l,
        "en_nz"@,
    ) || has_prefix(l, "en_ph"@) || has_prefix(l, "ja_jp"@) || has_prefix(l, "ko_kr"@) || has_prefix(
        l,
        "zh_cn"@,
    ) || has_prefix(l, "zh_tw"@) || has_prefix(l, "zh_hk"@) || has_prefix(l, "he_il"@) || has_prefix(
        l,
        "ar_sa"@,
    ) || has_prefix(l, "ar_ae"@) || has_prefix(l, "ar_eg"@) || has_prefix(l, "fil_ph"@) || has_prefix(
        l,
        "tl_ph"@,
    ) || has_prefix(l, "pt_br"@)
}

/// Locales whose week starts on Saturday.
pub open spec fn saturday_prefix(l: Seq<char>) -> bool {
    has_prefix(l, "ar_iq"@) || has_prefix(l, "ar_ly"@) || has_prefix(l, "ar_om"@) || has_prefix(
        l,
        "ar_qa"@,
    ) || has_prefix(l, "ar_sd"@) || has_prefix(l, "ar_sy"@) || has_prefix(l, "ar_ye"@)
}

/// Whether `locale` (such as `de_DE.UTF-8`) reads the clock in 24 hours:
/// every locale does but a few English and Philippine ones.
pub fn detect_24_hour_format(locale: &str) -> (r: bool)
    ensures
        r == !twelve_hour_prefix(lowercase_of(locale@)),
{
    let l = lowercase(locale);
    let l = l.as_str();
    !(starts_with(l, "en_us") || starts_with(l, "en_ca") || starts_with(l, "en_au") || starts_with(
        l,
        "en_nz",
    ) || starts_with(l, "en_ph") || starts_with(l, "fil_ph") || starts_with(l, "tl_ph"))
}

/// The first day of the week in `locale`: Sunday or Saturday for the
/// locales that use them, Monday for all others.
pub fn detect_first_day_of_week(locale: &str) -> (r: Weekday)
    ensures
        r == if sunday_prefix(lowercase_of(locale@)) {
            Weekday::Sun
        } else if saturday_prefix(lowercase_of(locale@)) {
            Weekday::Sat
        } else {
            Weekday::Mon
        },
{
    let l = lowercase(locale);
    let l = l.as_str();
    if starts_with(l, "en_us") || starts_with(l, "en_ca") || starts_with(l, "en_au") || starts_with(
        l,
        "en_nz",
    ) || starts_with(l, "en_ph") || starts_with(l, "ja_jp") || starts_with(l, "ko_kr")
        || starts_with(l, "zh_cn") || starts_with(l, "zh_tw") || starts_with(l, "zh_hk")
        || starts_with(l, "he_il") || starts_with(l, "ar_sa") || starts_with(l, "ar_ae")
        || starts_with(l, "ar_eg") || starts_with(l, "fil_ph") || starts_with(l, "tl_ph")
        || starts_with(l, "pt_br") {
        Weekday::Sun
    } else if starts_with(l, "ar_iq") || starts_with(l, "ar_ly") || starts_with(l, "ar_om")
        || starts_with(l, "ar_qa") || starts_with(l, "ar_sd") || starts_with(l, "ar_sy")
        || starts_with(l, "ar_ye") {
        Weekday::Sat
    } else {
        Weekday::Mon
    }
}

/// Clock format and week start of the user.
#[derive(Debug)]
pub struct LocalePreferences {
    pub use_24_hour: bool,
    pub first_day_of_week: Weekday,
    pub locale_string: String,
}

/// Label of `hour` on a 24-hour clock (`07:00`, `13:00`) or a 12-hour clock
/// (`12 AM`, `1 PM`).
pub open spec fn hour_label(use_24_hour: bool, hour: nat) -> Seq<char> {
    if use_24_hour {
        (if hour < 10 { "0"@ } else { Seq::empty() }) + number_text(hour) + ":00"@
    } else if hour == 0 {
        "12 AM"@
    } else if hour < 12 {
        number_text(hour) + " AM"@
    } else if hour == 12 {
        "12 PM"@
    } else {
        number_text((hour - 12) as nat) + " PM"@
    }
}

impl LocalePreferences {
    /// The preferences of `locale`, such as `en_US.UTF-8`.
    pub fn from_locale(locale: String) -> (r: LocalePreferences)
        ensures
            r.use_24_hour == !twelve_hour_prefix(lowercase_of(locale@)),
            r.first_day_of_week == if sunday_prefix(lowercase_of(locale@)) {
                Weekday::Sun
            } else if saturday_prefix(lowercase_of(locale@)) {
                Weekday::Sat
            } else {
                Weekday::Mon
            },
            r.locale_string@ == locale@,
    {
        let use_24_hour = detect_24_hour_format(locale.as_str());
        let first_day_of_week = detect_first_day_of_week(locale.as_str());
        LocalePreferences { use_24_hour, first_day_of_week, locale_string: locale }
    }

    /// Label of an hour of the day in the clock format of the locale:
    /// `13:00`, or `1 PM`.
    pub fn format_hour(&self, hour: u32) -> (r: String)
        ensures
            r@ == hour_label(self.use_24_hour, hour as nat),
    {
        let mut r = String::new();
        if self.use_24_hour {
            if hour < 10 {
                r.append("0");
            }
            append_number(&mut r, hour);
            r.append(":00");
        } else if hour == 0 {
            r.append("12 AM");
        } else if hour == 12 {
            r.append("12 PM");
        } else if hour < 12 {
            append_number(&mut r, hour);
            r.append(" AM");
        } else {
            append_number(&mut r, hour - 12);
            r.append(" PM");
        }
        proof {
            assert(r@ =~= hour_label(self.use_24_hour, hour as nat));
        }
        r
    }

    /// Days from Monday back to the first day of the week, as a count
    /// not above zero: 0 for Monday through -6 for Sunday.
    pub fn days_from_monday(&self) -> (r: i64)
        ensures
            r == match self.first_day_of_week {
                Weekday::Mon => 0,
                Weekday::Tue => -1,
                Weekday::Wed => -2,
                Weekday::Thu => -3,
                Weekday::Fri => -4,
                Weekday::Sat => -5,
                Weekday::Sun => -6int,
            },
    {
        match self.first_day_of_week {
            Weekday::Mon => 0,
            Weekday::Tue => -1,
            Weekday::Wed => -2,
            Weekday::Thu => -3,
            Weekday::Fri => -4,
            Weekday::Sat => -5,
            Weekday::Sun => -6,
        }
    }
}

} // verus!
