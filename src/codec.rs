//! The stored row form of a master event.
//!
//! Scalars are kept as they are; times are RFC 3339 texts in UTC; dates are
//! ISO-8601 `YYYY-MM-DD`; the enumerated fields are JSON tags (a JSON string
//! for a plain variant, `{"Custom":<string>}` for a custom rule); lists are
//! JSON arrays of strings. Reading never fails as a whole: a field that does
//! not decode takes its default.

use vstd::prelude::*;
use crate::date::{
    Date, Timestamp, iso_date_parsed, rfc3339_parsed, iso_text, rfc3339_text, format_iso, parse_iso, format_rfc3339, parse_rfc3339,
};
use crate::event::{
    AlertTime, CalendarEvent, EventView, RepeatFrequency, RepeatRule, TravelTime, opt_text, texts,
    duplicate_text,
};
use crate::json::{
    json_list_parsed, json_string_parsed, json_list_text, json_string_text, to_json_list, to_json_string, from_json_list, from_json_string,
};
use crate::text::{has_prefix, text_eq, starts_with};

verus! {

/// The columns of one stored event, as text.
#[derive(Debug)]
pub struct EventRow {
    pub uid: String,
    pub summary: String,
    pub location: Option<String>,
    pub all_day: bool,
    pub start_time: String,
    pub end_time: String,
    pub travel_time: String,
    pub repeat: String,
    pub repeat_until: Option<String>,
    /// Absent in rows written before exception dates existed.
    pub exception_dates: Option<String>,
    pub invitees: String,
    pub alert: String,
    pub alert_second: Option<String>,
    pub attachments: String,
    pub url: Option<String>,
    pub notes: Option<String>,
}

pub ghost struct RowView {
    pub uid: Seq<char>,
    pub summary: Seq<char>,
    pub location: Option<Seq<char>>,
    pub all_day: bool,
    pub start_time: Seq<char>,
    pub end_time: Seq<char>,
    pub travel_time: Seq<char>,
    pub repeat: Seq<char>,
    pub repeat_until: Option<Seq<char>>,
    pub exception_dates: Option<Seq<char>>,
    pub invitees: Seq<char>,
    pub alert: Seq<char>,
    pub alert_second: Option<Seq<char>>,
    pub attachments: Seq<char>,
    pub url: Option<Seq<char>>,
    pub notes: Option<Seq<char>>,
}

impl View for EventRow {
    type V = RowView;

    open spec fn view(&self) -> RowView {
        RowView {
            uid: self.uid@,
            summary: self.summary@,
            location: opt_text(self.location),
            all_day: self.all_day,
            start_time: self.start_time@,
            end_time: self.end_time@,
            travel_time: self.travel_time@,
            repeat: self.repeat@,
            repeat_until: opt_text(self.repeat_until),
            exception_dates: opt_text(self.exception_dates),
            invitees: self.invitees@,
            alert: self.alert@,
            alert_second: opt_text(self.alert_second),
            attachments: self.attachments@,
            url: opt_text(self.url),
            notes: opt_text(self.notes),
        }
    }
}

pub open spec fn travel_tag(t: TravelTime) -> Seq<char> {
    match t {
        TravelTime::NoTravel => "None"@,
        TravelTime::FiveMinutes => "FiveMinutes"@,
        TravelTime::FifteenMinutes => "FifteenMinutes"@,
        TravelTime::ThirtyMinutes => "ThirtyMinutes"@,
        TravelTime::OneHour => "OneHour"@,
        TravelTime::TwoHours => "TwoHours"@,
    }
}

pub open spec fn alert_tag(a: AlertTime) -> Seq<char> {
    match a {
        AlertTime::NoAlert => "None"@,
        AlertTime::AtTime => "AtTime"@,
        AlertTime::FiveMinutes => "FiveMinutes"@,
        AlertTime::TenMinutes => "TenMinutes"@,
        AlertTime::FifteenMinutes => "FifteenMinutes"@,
        AlertTime::ThirtyMinutes => "ThirtyMinutes"@,
        AlertTime::OneHour => "OneHour"@,
        AlertTime::TwoHours => "TwoHours"@,
        AlertTime::OneDay => "OneDay"@,
        AlertTime::TwoDays => "TwoDays"@,
        AlertTime::OneWeek => "OneWeek"@,
    }
}

/// Tag of a repeat rule without payload.
pub open spec fn repeat_tag(r: RepeatRule) -> Seq<char> {
    match r {
        RepeatRule::Daily => "Daily"@,
        RepeatRule::Weekly => "Weekly"@,
        RepeatRule::Biweekly => "Biweekly"@,
        RepeatRule::Monthly => "Monthly"@,
        RepeatRule::Yearly => "Yearly"@,
        _ => "Never"@,
    }
}

pub open spec fn custom_prefix() -> Seq<char> {
    "{\"Custom\":"@
}

pub open spec fn encode_repeat(r: RepeatRule) -> Seq<char> {
    match r {
        RepeatRule::Custom(raw) => custom_prefix() + json_string_text(raw) + seq!['}'],
        _ => json_string_text(repeat_tag(r)),
    }
}

pub open spec fn encode_opt_date(d: Option<Date>) -> Option<Seq<char>> {
    match d {
        Some(x) => Some(iso_text(x)),
        None => None,
    }
}

pub open spec fn encode_opt_alert(a: Option<AlertTime>) -> Option<Seq<char>> {
    match a {
        Some(x) => Some(json_string_text(alert_tag(x))),
        None => None,
    }
}

pub open spec fn iso_texts(ds: Seq<Date>) -> Seq<Seq<char>> {
    ds.map_values(|d: Date| iso_text(d))
}

pub open spec fn encode_dates(ds: Seq<Date>) -> Seq<char> {
    json_list_text(iso_texts(ds))
}

/// The row that stores `e`.
pub open spec fn encode_view(e: EventView) -> RowView {
    RowView {
        uid: e.uid,
        summary: e.summary,
        location: e.location,
        all_day: e.all_day,
        start_time: rfc3339_text(e.start),
        end_time: rfc3339_text(e.end),
        travel_time: json_string_text(travel_tag(e.travel_time)),
        repeat: encode_repeat(e.repeat),
        repeat_until: encode_opt_date(e.repeat_until),
        exception_dates: Some(encode_dates(e.exception_dates)),
        invitees: json_list_text(e.invitees),
        alert: json_string_text(alert_tag(e.alert)),
        alert_second: encode_opt_alert(e.alert_second),
        attachments: json_list_text(e.attachments),
        url: e.url,
        notes: e.notes,
    }
}

/// The travel time a tag names, if any.
pub open spec fn travel_of_name(n: Seq<char>) -> Option<TravelTime> {
    if n == travel_tag(TravelTime::NoTravel) { Some(TravelTime::NoTravel) }
    else if n == travel_tag(TravelTime::FiveMinutes) { Some(TravelTime::FiveMinutes) }
    else if n == travel_tag(TravelTime::FifteenMinutes) { Some(TravelTime::FifteenMinutes) }
    else if n == travel_tag(TravelTime::ThirtyMinutes) { Some(TravelTime::ThirtyMinutes) }
    else if n == travel_tag(TravelTime::OneHour) { Some(TravelTime::OneHour) }
    else if n == travel_tag(TravelTime::TwoHours) { Some(TravelTime::TwoHours) }
    else { None }
}

/// The alert a tag names, if any.
pub open spec fn alert_of_name(n: Seq<char>) -> Option<AlertTime> {
    if n == alert_tag(AlertTime::NoAlert) { Some(AlertTime::NoAlert) }
    else if n == alert_tag(AlertTime::AtTime) { Some(AlertTime::AtTime) }
    else if n == alert_tag(AlertTime::FiveMinutes) { Some(AlertTime::FiveMinutes) }
    else if n == alert_tag(AlertTime::TenMinutes) { Some(AlertTime::TenMinutes) }
    else if n == alert_tag(AlertTime::FifteenMinutes) { Some(AlertTime::FifteenMinutes) }
    else if n == alert_tag(AlertTime::ThirtyMinutes) { Some(AlertTime::ThirtyMinutes) }
    else if n == alert_tag(AlertTime::OneHour) { Some(AlertTime::OneHour) }
    else if n == alert_tag(AlertTime::TwoHours) { Some(AlertTime::TwoHours) }
    else if n == alert_tag(AlertTime::OneDay) { Some(AlertTime::OneDay) }
    else if n == alert_tag(AlertTime::TwoDays) { Some(AlertTime::TwoDays) }
    else if n == alert_tag(AlertTime::OneWeek) { Some(AlertTime::OneWeek) }
    else { None }
}

/// The repeat rule a tag names; `Never` for any other text.
pub open spec fn repeat_of_name(n: Seq<char>) -> RepeatRule {
    if n == repeat_tag(RepeatRule::Daily) { RepeatRule::Daily }
    else if n == repeat_tag(RepeatRule::Weekly) { RepeatRule::Weekly }
    else if n == repeat_tag(RepeatRule::Biweekly) { RepeatRule::Biweekly }
    else if n == repeat_tag(RepeatRule::Monthly) { RepeatRule::Monthly }
    else if n == repeat_tag(RepeatRule::Yearly) { RepeatRule::Yearly }
    else { RepeatRule::Never }
}

/// A stored travel time: its tag, or `NoTravel` when it names none.
pub open spec fn decode_travel(s: Seq<char>) -> TravelTime {
    match json_string_parsed(s) {
        Some(n) => match travel_of_name(n) {
            Some(t) => t,
            None => TravelTime::NoTravel,
        },
        None => TravelTime::NoTravel,
    }
}

/// A stored alert: its tag, or `NoAlert` when it names none.
pub open spec fn decode_alert(s: Seq<char>) -> AlertTime {
    match json_string_parsed(s) {
        Some(n) => match alert_of_name(n) {
            Some(a) => a,
            None => AlertTime::NoAlert,
        },
        None => AlertTime::NoAlert,
    }
}

/// A stored second alert: absent when the column is empty or names none.
pub open spec fn decode_alert_second(o: Option<Seq<char>>) -> Option<AlertTime> {
    match o {
        Some(s) => match json_string_parsed(s) {
            Some(n) => alert_of_name(n),
            None => None,
        },
        None => None,
    }
}

/// A stored repeat rule: a tag, or a custom rule framed as
/// `{"Custom":<string>}`; `Never` for anything else.
pub open spec fn decode_repeat_text(s: Seq<char>) -> RepeatRule {
    match json_string_parsed(s) {
        Some(n) => repeat_of_name(n),
        None => if has_prefix(s, custom_prefix()) && s.len() >= 11 && s.last() == '}' {
            match json_string_parsed(s.subrange(10, s.len() - 1)) {
                Some(raw) => RepeatRule::Custom(raw),
                None => RepeatRule::Never,
            }
        } else {
            RepeatRule::Never
        },
    }
}

/// A stored end date of a series: absent when missing or unreadable.
pub open spec fn decode_until(o: Option<Seq<char>>) -> Option<Date> {
    match o {
        Some(s) => match iso_date_parsed(s) {
            Some(d) => if d.wf() { Some(d) } else { None },
            None => None,
        },
        None => None,
    }
}

/// The readable dates of a list of date texts, in order.
pub open spec fn dates_of_texts(v: Seq<Seq<char>>) -> Seq<Date>
    decreases v.len(),
{
    if v.len() == 0 {
        Seq::empty()
    } else {
        dates_of_texts(v.drop_last()) + match iso_date_parsed(v.last()) {
            Some(d) => if d.wf() { seq![d] } else { Seq::empty() },
            None => Seq::empty(),
        }
    }
}

/// Stored exception dates: the readable ones, in order; none when the
/// column is missing or not a list.
pub open spec fn decode_dates_text(o: Option<Seq<char>>) -> Seq<Date> {
    match o {
        Some(t) => match json_list_parsed(t) {
            Some(v) => dates_of_texts(v),
            None => Seq::empty(),
        },
        None => Seq::empty(),
    }
}

/// A stored list of texts; empty when it is not a list.
pub open spec fn decode_list_text(s: Seq<char>) -> Seq<Seq<char>> {
    match json_list_parsed(s) {
        Some(v) => v,
        None => Seq::empty(),
    }
}

/// A stored time; `now` when it is unreadable or not one the library holds.
pub open spec fn decode_time_text(s: Seq<char>, now: Timestamp) -> Timestamp {
    match rfc3339_parsed(s) {
        Some(t) => if t.wf() { t } else { now },
        None => now,
    }
}

/// The event that `row` stores, each field decoded on its own.
pub open spec fn decoded_view(row: RowView, now: Timestamp) -> EventView {
    EventView {
        uid: row.uid,
        summary: row.summary,
        location: row.location,
        all_day: row.all_day,
        start: decode_time_text(row.start_time, now),
        end: decode_time_text(row.end_time, now),
        travel_time: decode_travel(row.travel_time),
        repeat: decode_repeat_text(row.repeat),
        repeat_until: decode_until(row.repeat_until),
        exception_dates: decode_dates_text(row.exception_dates),
        invitees: decode_list_text(row.invitees),
        alert: decode_alert(row.alert),
        alert_second: decode_alert_second(row.alert_second),
        attachments: decode_list_text(row.attachments),
        url: row.url,
        notes: row.notes,
    }
}

proof fn lemma_travel_tags_distinct()
    ensures
        forall|a: TravelTime, b: TravelTime| #[trigger] travel_tag(a) == #[trigger] travel_tag(b) ==> a == b,
{
    reveal_strlit("None");
    reveal_strlit("FiveMinutes");
    reveal_strlit("FifteenMinutes");
    reveal_strlit("ThirtyMinutes");
    reveal_strlit("OneHour");
    reveal_strlit("TwoHours");
    assert("None"@.len() == 4);
    assert("FiveMinutes"@.len() == 11);
    assert("FifteenMinutes"@.len() == 14);
    assert("ThirtyMinutes"@.len() == 13);
    assert("OneHour"@.len() == 7);
    assert("TwoHours"@.len() == 8);
}

proof fn lemma_alert_tags_distinct()
    ensures
        forall|a: AlertTime, b: AlertTime| #[trigger] alert_tag(a) == #[trigger] alert_tag(b) ==> a == b,
{
    reveal_strlit("None");
    reveal_strlit("AtTime");
    reveal_strlit("FiveMinutes");
    reveal_strlit("TenMinutes");
    reveal_strlit("FifteenMinutes");
    reveal_strlit("ThirtyMinutes");
    reveal_strlit("OneHour");
    reveal_strlit("TwoHours");
    reveal_strlit("OneDay");
    reveal_strlit("TwoDays");
    reveal_strlit("OneWeek");
    assert("None"@.len() == 4);
    assert("AtTime"@.len() == 6);
    assert("FiveMinutes"@.len() == 11);
    assert("TenMinutes"@.len() == 10);
    assert("FifteenMinutes"@.len() == 14);
    assert("ThirtyMinutes"@.len() == 13);
    assert("OneHour"@.len() == 7);
    assert("TwoHours"@.len() == 8);
    assert("OneDay"@.len() == 6);
    assert("TwoDays"@.len() == 7);
    assert("OneWeek"@.len() == 7);
    assert("AtTime"@[0] != "OneDay"@[0]);
    assert("OneHour"@[0] != "TwoDays"@[0]);
    assert("OneWeek"@[0] != "TwoDays"@[0]);
    assert("OneHour"@[3] != "OneWeek"@[3]);
}

proof fn lemma_repeat_tags_distinct()
    ensures
        forall|a: RepeatRule, b: RepeatRule|
            !(a is Custom) && !(b is Custom) && #[trigger] repeat_tag(a) == #[trigger] repeat_tag(b) ==> a == b,
{
    reveal_strlit("Never");
    reveal_strlit("Daily");
    reveal_strlit("Weekly");
    reveal_strlit("Biweekly");
    reveal_strlit("Monthly");
    reveal_strlit("Yearly");
    assert("Never"@.len() == 5);
    assert("Daily"@.len() == 5);
    assert("Weekly"@.len() == 6);
    assert("Biweekly"@.len() == 8);
    assert("Monthly"@.len() == 7);
    assert("Yearly"@.len() == 6);
    assert("Never"@[0] != "Daily"@[0]);
    assert("Weekly"@[0] != "Yearly"@[0]);
}

fn travel_tag_str(t: TravelTime) -> (r: &'static str)
    ensures
        r@ == travel_tag(t),
{
    match t {
        TravelTime::NoTravel => "None",
        TravelTime::FiveMinutes => "FiveMinutes",
        TravelTime::FifteenMinutes => "FifteenMinutes",
        TravelTime::ThirtyMinutes => "ThirtyMinutes",
        TravelTime::OneHour => "OneHour",
        TravelTime::TwoHours => "TwoHours",
    }
}

fn travel_of_tag(n: &str) -> (r: Option<TravelTime>)
    ensures
        r == travel_of_name(n@),
        forall|t: TravelTime| n@ == #[trigger] travel_tag(t) ==> r == Some(t),
{
    proof {
        lemma_travel_tags_distinct();
    }
    if text_eq(n, travel_tag_str(TravelTime::NoTravel)) {
        Some(TravelTime::NoTravel)
    } else if text_eq(n, travel_tag_str(TravelTime::FiveMinutes)) {
        Some(TravelTime::FiveMinutes)
    } else if text_eq(n, travel_tag_str(TravelTime::FifteenMinutes)) {
        Some(TravelTime::FifteenMinutes)
    } else if text_eq(n, travel_tag_str(TravelTime::ThirtyMinutes)) {
        Some(TravelTime::ThirtyMinutes)
    } else if text_eq(n, travel_tag_str(TravelTime::OneHour)) {
        Some(TravelTime::OneHour)
    } else if text_eq(n, travel_tag_str(TravelTime::TwoHours)) {
        Some(TravelTime::TwoHours)
    } else {
        None
    }
}

fn alert_tag_str(a: AlertTime) -> (r: &'static str)
    ensures
        r@ == alert_tag(a),
{
    match a {
        AlertTime::NoAlert => "None",
        AlertTime::AtTime => "AtTime",
        AlertTime::FiveMinutes => "FiveMinutes",
        AlertTime::TenMinutes => "TenMinutes",
        AlertTime::FifteenMinutes => "FifteenMinutes",
        AlertTime::ThirtyMinutes => "ThirtyMinutes",
        AlertTime::OneHour => "OneHour",
        AlertTime::TwoHours => "TwoHours",
        AlertTime::OneDay => "OneDay",
        AlertTime::TwoDays => "TwoDays",
        AlertTime::OneWeek => "OneWeek",
    }
}

fn alert_of_tag(n: &str) -> (r: Option<AlertTime>)
    ensures
        r == alert_of_name(n@),
        forall|a: AlertTime| n@ == #[trigger] alert_tag(a) ==> r == Some(a),
{
    proof {
        lemma_alert_tags_distinct();
    }
    if text_eq(n, alert_tag_str(AlertTime::NoAlert)) {
        Some(AlertTime::NoAlert)
    } else if text_eq(n, alert_tag_str(AlertTime::AtTime)) {
        Some(AlertTime::AtTime)
    } else if text_eq(n, alert_tag_str(AlertTime::FiveMinutes)) {
        Some(AlertTime::FiveMinutes)
    } else if text_eq(n, alert_tag_str(AlertTime::TenMinutes)) {
        Some(AlertTime::TenMinutes)
    } else if text_eq(n, alert_tag_str(AlertTime::FifteenMinutes)) {
        Some(AlertTime::FifteenMinutes)
    } else if text_eq(n, alert_tag_str(AlertTime::ThirtyMinutes)) {
        Some(AlertTime::ThirtyMinutes)
    } else if text_eq(n, alert_tag_str(AlertTime::OneHour)) {
        Some(AlertTime::OneHour)
    } else if text_eq(n, alert_tag_str(AlertTime::TwoHours)) {
        Some(AlertTime::TwoHours)
    } else if text_eq(n, alert_tag_str(AlertTime::OneDay)) {
        Some(AlertTime::OneDay)
    } else if text_eq(n, alert_tag_str(AlertTime::TwoDays)) {
        Some(AlertTime::TwoDays)
    } else if text_eq(n, alert_tag_str(AlertTime::OneWeek)) {
        Some(AlertTime::OneWeek)
    } else {
        None
    }
}

fn repeat_tag_str(r: &RepeatFrequency) -> (t: &'static str)
    ensures
        t@ == repeat_tag(r@),
{
    match r {
        RepeatFrequency::Daily => "Daily",
        RepeatFrequency::Weekly => "Weekly",
        RepeatFrequency::Biweekly => "Biweekly",
        RepeatFrequency::Monthly => "Monthly",
        RepeatFrequency::Yearly => "Yearly",
        _ => "Never",
    }
}

fn repeat_of_tag(n: &str) -> (r: RepeatFrequency)
    ensures
        r@ == repeat_of_name(n@),
        forall|x: RepeatRule| !(x is Custom) && n@ == #[trigger] repeat_tag(x) ==> r@ == x,
{
    proof {
        lemma_repeat_tags_distinct();
    }
    if text_eq(n, repeat_tag_str(&RepeatFrequency::Daily)) {
        RepeatFrequency::Daily
    } else if text_eq(n, repeat_tag_str(&RepeatFrequency::Weekly)) {
        RepeatFrequency::Weekly
    } else if text_eq(n, repeat_tag_str(&RepeatFrequency::Biweekly)) {
        RepeatFrequency::Biweekly
    } else if text_eq(n, repeat_tag_str(&RepeatFrequency::Monthly)) {
        RepeatFrequency::Monthly
    } else if text_eq(n, repeat_tag_str(&RepeatFrequency::Yearly)) {
        RepeatFrequency::Yearly
    } else {
        RepeatFrequency::Never
    }
}

fn encode_repeat_text(r: &RepeatFrequency) -> (s: String)
    ensures
        s@ == encode_repeat(r@),
{
    match r {
        RepeatFrequency::Custom(raw) => {
            let prefix = "{\"Custom\":";
            let close = "}";
            proof {
                reveal_strlit("}");
            }
            let body = to_json_string(raw.as_str());
            let s = String::from_str(prefix).concat(body.as_str()).concat(close);
            s
        },
        _ => to_json_string(repeat_tag_str(r)),
    }
}

fn decode_repeat(s: &str) -> (r: RepeatFrequency)
    ensures
        r@ == decode_repeat_text(s@),
        forall|x: RepeatRule| s@ == #[trigger] encode_repeat(x) ==> r@ == x,
{
    let prefix = "{\"Custom\":";
    proof {
        reveal_strlit("{\"Custom\":");
    }
    match from_json_string(s) {
        Some(name) => {
            proof {
                assert forall|x: RepeatRule| s@ == #[trigger] encode_repeat(x) implies !(x is Custom) by {
                    if x is Custom {
                        assert(s@[0] == '{');
                    }
                }
            }
            repeat_of_tag(name.as_str())
        },
        None => {
            let n = s.unicode_len();
            if starts_with(s, prefix) && n >= 11 && s.get_char(n - 1) == '}' {
                let body = s.substring_char(10, n - 1);
                proof {
                    assert forall|x: RepeatRule| s@ == #[trigger] encode_repeat(x) implies (x is Custom
                        && json_string_text(x->Custom_0) == body@) by {
                        if !(x is Custom) {
                            assert(opt_text(None::<String>) is None);
                        }
                        assert(body@ =~= s@.subrange(10, n - 1));
                        assert(s@.subrange(10, n - 1) =~= json_string_text(x->Custom_0));
                    }
                }
                proof {
                    assert(body@ =~= s@.subrange(10, s@.len() - 1));
                }
                match from_json_string(body) {
                    Some(raw) => RepeatFrequency::Custom(raw),
                    None => RepeatFrequency::Never,
                }
            } else {
                proof {
                    assert forall|x: RepeatRule| s@ == #[trigger] encode_repeat(x) implies false by {
                        if x is Custom {
                            assert(s@.subrange(0, 10) =~= custom_prefix());
                            assert(s@[n - 1] == '}');
                        }
                    }
                }
                RepeatFrequency::Never
            }
        },
    }
}

fn encode_dates_text(ds: &Vec<Date>) -> (s: String)
    requires
        forall|i: int| 0 <= i < ds@.len() ==> (#[trigger] ds@[i]).wf(),
    ensures
        s@ == encode_dates(ds@),
{
    let mut v: Vec<String> = Vec::new();
    let mut i: usize = 0;
    while i < ds.len()
        invariant
            i <= ds.len(),
            v.len() == i,
            forall|j: int| 0 <= j < ds@.len() ==> (#[trigger] ds@[j]).wf(),
            forall|j: int| 0 <= j < i ==> (#[trigger] v@[j])@ == iso_text(ds@[j]),
        decreases ds.len() - i,
    {
        v.push(format_iso(ds[i]));
        i = i + 1;
    }
    proof {
        assert(texts(v@) =~= iso_texts(ds@));
    }
    to_json_list(&v)
}

fn decode_dates(s: &Option<String>) -> (r: Vec<Date>)
    ensures
        r@ == decode_dates_text(opt_text(*s)),
        forall|i: int| 0 <= i < r@.len() ==> (#[trigger] r@[i]).wf(),
        forall|ds: Seq<Date>|
            (forall|i: int| 0 <= i < ds.len() ==> (#[trigger] ds[i]).wf()) && opt_text(*s) == Some(
                #[trigger] encode_dates(ds),
            ) ==> r@ == ds,
{
    let mut r: Vec<Date> = Vec::new();
    match s {
        None => r,
        Some(text) => match from_json_list(text.as_str()) {
            None => r,
            Some(v) => {
                let mut i: usize = 0;
                proof {
                    assert(texts(v@).subrange(0, 0) =~= Seq::<Seq<char>>::empty());
                    assert(r@ =~= Seq::<Date>::empty());
                }
                while i < v.len()
                    invariant
                        i <= v.len(),
                        forall|j: int| 0 <= j < r@.len() ==> (#[trigger] r@[j]).wf(),
                        json_list_parsed(text@) == Some(texts(v@)),
                        r@ == dates_of_texts(texts(v@).subrange(0, i as int)),
                        forall|ds: Seq<Date>|
                            (forall|j: int| 0 <= j < ds.len() ==> (#[trigger] ds[j]).wf())
                                && texts(v@) == #[trigger] iso_texts(ds) ==> r@
                                == ds.subrange(0, i as int),
                    decreases v.len() - i,
                {
                    let ghost prev = r@;
                    proof {
                        assert(texts(v@).subrange(0, i + 1).drop_last() =~= texts(v@).subrange(0, i as int));
                        assert(texts(v@).subrange(0, i + 1).last() == v@[i as int]@);
                    }
                    let parsed = parse_iso(v[i].as_str());
                    match parsed {
                        Some(d) => {
                            if d.is_valid() {
                                r.push(d);
                            }
                        },
                        None => {},
                    }
                    proof {
                        assert forall|ds: Seq<Date>|
                            (forall|j: int| 0 <= j < ds.len() ==> (#[trigger] ds[j]).wf())
                                && texts(v@) == #[trigger] iso_texts(ds) implies r@
                            == ds.subrange(0, i + 1) by {
                            assert(texts(v@).len() == v@.len());
                            assert(iso_texts(ds).len() == ds.len());
                            assert(prev == ds.subrange(0, i as int));
                            assert(texts(v@)[i as int] == iso_texts(ds)[i as int]);
                            assert(v@[i as int]@ == iso_text(ds[i as int]));
                            assert(r@ =~= ds.subrange(0, i + 1));
                        }
                        assert(r@ =~= dates_of_texts(texts(v@).subrange(0, i + 1)));
                    }
                    i = i + 1;
                }
                proof {
                    assert(texts(v@).subrange(0, v@.len() as int) =~= texts(v@));
                    assert forall|ds: Seq<Date>|
                        (forall|j: int| 0 <= j < ds.len() ==> (#[trigger] ds[j]).wf()) && opt_text(*s)
                            == Some(#[trigger] encode_dates(ds)) implies r@ == ds by {
                        assert(texts(v@) == iso_texts(ds));
                        assert(ds.subrange(0, v@.len() as int) =~= ds);
                    }
                }
                r
            },
        },
    }
}

fn decode_list(s: &str) -> (r: Vec<String>)
    ensures
        texts(r@) == decode_list_text(s@),
        forall|t: Seq<Seq<char>>| s@ == #[trigger] json_list_text(t) ==> texts(r@) == t,
{
    match from_json_list(s) {
        Some(v) => v,
        None => {
            let v: Vec<String> = Vec::new();
            proof {
                assert(texts(v@) =~= Seq::<Seq<char>>::empty());
            }
            v
        },
    }
}

/// The row that stores `event`.
pub fn encode_event(event: &CalendarEvent) -> (r: EventRow)
    requires
        event@.wf(),
    ensures
        r@ == encode_view(event@),
{
    let repeat_until = match event.repeat_until {
        Some(d) => Some(format_iso(d)),
        None => None,
    };
    let alert_second = match event.alert_second {
        Some(a) => Some(to_json_string(alert_tag_str(a))),
        None => None,
    };
    let row = EventRow {
        uid: event.uid.clone(),
        summary: event.summary.clone(),
        location: duplicate_text(&event.location),
        all_day: event.all_day,
        start_time: format_rfc3339(event.start),
        end_time: format_rfc3339(event.end),
        travel_time: to_json_string(travel_tag_str(event.travel_time)),
        repeat: encode_repeat_text(&event.repeat),
        repeat_until,
        exception_dates: Some(encode_dates_text(&event.exception_dates)),
        invitees: to_json_list(&event.invitees),
        alert: to_json_string(alert_tag_str(event.alert)),
        alert_second,
        attachments: to_json_list(&event.attachments),
        url: duplicate_text(&event.url),
        notes: duplicate_text(&event.notes),
    };
    row
}

fn decode_time(s: &str, fallback: Timestamp) -> (r: Timestamp)
    requires
        fallback.wf(),
    ensures
        r.wf(),
        r == decode_time_text(s@, fallback),
        forall|t: Timestamp| t.wf() && s@ == #[trigger] rfc3339_text(t) ==> r == t,
{
    match parse_rfc3339(s) {
        Some(t) => {
            if t.is_valid() {
                t
            } else {
                fallback
            }
        },
        None => fallback,
    }
}

fn decode_tag(s: &str) -> (r: Option<String>)
    ensures
        opt_text(r) == json_string_parsed(s@),
        forall|t: Seq<char>| s@ == #[trigger] json_string_text(t) ==> opt_text(r) == Some(t),
{
    from_json_string(s)
}

/// The event stored in `row` (see [`decoded_view`]). A field that does not
/// decode takes its default: `now` for a time, `NoTravel`, `Never` or
/// `NoAlert` for an enumerated field, nothing for an optional one, the empty
/// list for a list; unreadable exception dates are dropped and the others
/// kept in order. A row written by [`encode_event`] reads back as the event
/// it was written from.
pub fn decode_row(row: &EventRow, now: Timestamp) -> (r: CalendarEvent)
    requires
        now.wf(),
    ensures
        r@ == decoded_view(row@, now),
        r.uid@ == row.uid@,
        r.summary@ == row.summary@,
        opt_text(r.location) == opt_text(row.location),
        r.all_day == row.all_day,
        opt_text(r.url) == opt_text(row.url),
        opt_text(r.notes) == opt_text(row.notes),
        r@.start.wf(),
        r@.end.wf(),
        forall|i: int| 0 <= i < r@.exception_dates.len() ==> (#[trigger] r@.exception_dates[i]).wf(),
        r@.repeat_until matches Some(u) ==> u.wf(),
        forall|e: EventView| e.wf() && row@ == #[trigger] encode_view(e) ==> r@ == e,
{
    let travel_time = match decode_tag(row.travel_time.as_str()) {
        Some(n) => match travel_of_tag(n.as_str()) {
            Some(t) => t,
            None => TravelTime::NoTravel,
        },
        None => TravelTime::NoTravel,
    };
    let alert = match decode_tag(row.alert.as_str()) {
        Some(n) => match alert_of_tag(n.as_str()) {
            Some(a) => a,
            None => AlertTime::NoAlert,
        },
        None => AlertTime::NoAlert,
    };
    let alert_second = match &row.alert_second {
        Some(s) => match decode_tag(s.as_str()) {
            Some(n) => alert_of_tag(n.as_str()),
            None => None,
        },
        None => None,
    };
    let repeat_until = match &row.repeat_until {
        Some(s) => match parse_iso(s.as_str()) {
            Some(d) => {
                if d.is_valid() {
                    Some(d)
                } else {
                    None
                }
            },
            None => None,
        },
        None => None,
    };
    let event = CalendarEvent {
        uid: row.uid.clone(),
        summary: row.summary.clone(),
        location: duplicate_text(&row.location),
        all_day: row.all_day,
        start: decode_time(row.start_time.as_str(), now),
        end: decode_time(row.end_time.as_str(), now),
        travel_time,
        repeat: decode_repeat(row.repeat.as_str()),
        repeat_until,
        exception_dates: decode_dates(&row.exception_dates),
        invitees: decode_list(row.invitees.as_str()),
        alert,
        alert_second,
        attachments: decode_list(row.attachments.as_str()),
        url: duplicate_text(&row.url),
        notes: duplicate_text(&row.notes),
    };
    proof {
        assert forall|e: EventView| e.wf() && row@ == #[trigger] encode_view(e) implies event@ == e by {
            assert(row.start_time@ == rfc3339_text(e.start));
            assert(row.end_time@ == rfc3339_text(e.end));
            assert(row.travel_time@ == json_string_text(travel_tag(e.travel_time)));
            assert(row.alert@ == json_string_text(alert_tag(e.alert)));
            assert(row.repeat@ == encode_repeat(e.repeat));
            assert(opt_text(row.exception_dates) == Some(encode_dates(e.exception_dates)));
            assert(row.invitees@ == json_list_text(e.invitees));
            assert(row.attachments@ == json_list_text(e.attachments));
            match e.repeat_until {
                Some(u) => {
                    assert(opt_text(row.repeat_until) == Some(iso_text(u)));
                },
                None => {},
            }
            match e.alert_second {
                Some(a) => {
                    assert(opt_text(row.alert_second) == Some(json_string_text(alert_tag(a))));
                },
                None => {},
            }
        }
    }
    event
}

} // verus!
