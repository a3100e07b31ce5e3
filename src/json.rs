//! JSON texts of strings and of lists of strings, written and read by serde_json.

use vstd::prelude::*;
use crate::event::{texts, opt_text};

verus! {

/// The JSON string literal that serde_json writes for a text.
pub uninterp spec fn json_string_text(s: Seq<char>) -> Seq<char>;

/// The JSON array of string literals that serde_json writes for a list of texts.
pub uninterp spec fn json_list_text(v: Seq<Seq<char>>) -> Seq<char>;

/// What serde_json reads from a text as a string, if it reads one.
pub uninterp spec fn json_string_parsed(s: Seq<char>) -> Option<Seq<char>>;

/// What serde_json reads from a text as a list of strings, if it reads one.
pub uninterp spec fn json_list_parsed(s: Seq<char>) -> Option<Seq<Seq<char>>>;

pub open spec fn opt_texts(o: Option<Vec<String>>) -> Option<Seq<Seq<char>>> {
    match o {
        Some(v) => Some(texts(v@)),
        None => None,
    }
}

/// Relies on `serde_json::to_string` on a `str`: a JSON string literal, which
/// opens with a double quote.
#[verifier::external_body]
pub(crate) fn to_json_string(s: &str) -> (r: String)
    ensures
        r@ == json_string_text(s@),
        r@.len() >= 2,
        r@[0] == '"',
{
    serde_json::to_string(s).unwrap_or_default()
}

/// Relies on `serde_json::from_str::<String>`: a literal that serde_json
/// wrote for a text reads back as that text, and a JSON object is no string.
#[verifier::external_body]
pub(crate) fn from_json_string(s: &str) -> (r: Option<String>)
    ensures
        opt_text(r) == json_string_parsed(s@),
        forall|t: Seq<char>| #[trigger] json_string_text(t) == s@ ==> opt_text(r) == Some(t),
        s@.len() > 0 && s@[0] == '{' ==> r is None,
{
    serde_json::from_str::<String>(s).ok()
}

/// Relies on `serde_json::to_string` on a `Vec<String>`: a JSON array of
/// string literals, in order.
#[verifier::external_body]
pub(crate) fn to_json_list(v: &Vec<String>) -> (r: String)
    ensures
        r@ == json_list_text(texts(v@)),
{
    serde_json::to_string(v).unwrap_or_default()
}

/// Relies on `serde_json::from_str::<Vec<String>>`: an array that serde_json
/// wrote for a list of texts reads back as that list.
#[verifier::external_body]
pub(crate) fn from_json_list(s: &str) -> (r: Option<Vec<String>>)
    ensures
        opt_texts(r) == json_list_parsed(s@),
        forall|t: Seq<Seq<char>>| #[trigger] json_list_text(t) == s@ ==> opt_texts(r) == Some(t),
{
    serde_json::from_str::<Vec<String>>(s).ok()
}

} // verus!
