//! The trusted base of the library: what it takes from the standard
//! library and from other crates without proof.
//!
//! Each function here makes one outside call, converts what goes in and
//! what comes out, and states what the caller may rely on. What the JSON
//! parser and encoder compute is not spelled out; their results go by
//! names, and the contracts of this library speak of those names.

use vstd::prelude::*;
use crate::state_map::{entries_fold, keys_ascend};
use crate::text::{opt_view, opt_views, views};

verus! {

/// The list of strings that the JSON parser reads from a text; `None` where
/// the parser rejects the text.
pub uninterp spec fn json_string_list(text: Seq<char>) -> Option<Seq<Seq<char>>>;

/// The map from strings to strings that the JSON parser reads from a text;
/// `None` where the parser rejects the text.
pub uninterp spec fn json_string_map(text: Seq<char>) -> Option<Map<Seq<char>, Seq<char>>>;

/// The JSON text that the encoder writes for a list of strings; `None`
/// where the encoder fails.
pub uninterp spec fn json_of_string_list(list: Seq<Seq<char>>) -> Option<Seq<char>>;

/// The JSON text that the encoder writes for a map from strings to strings,
/// its keys in ascending order; `None` where the encoder fails.
pub uninterp spec fn json_of_string_map(map: Map<Seq<char>, Seq<char>>) -> Option<Seq<char>>;

/// Appends one character to a string.
///
/// Trusted: stands for `String::push` of the standard library, which appends
/// the given character to the end of the string and leaves the rest as it was.
#[verifier::external_body]
pub(crate) fn push_char(s: &mut String, c: char)
    ensures
        final(s)@ == old(s)@.push(c),
{
    s.push(c);
}

/// Generates a new identifier.
///
/// Trusted: stands for `uuid::Uuid::new_v4` followed by the identifier's
/// `Display` form. The identifier is drawn at random, so nothing is claimed
/// of the result. The call does not return where the system's source of
/// random bytes fails.
#[verifier::external_body]
pub(crate) fn fresh_id() -> String {
    uuid::Uuid::new_v4().to_string()
}

/// The current time in UTC as an RFC 3339 string.
///
/// Trusted: stands for `chrono::Utc::now` followed by
/// `DateTime::to_rfc3339`. The result depends on the clock, so nothing is
/// claimed of it. The call does not return on a machine whose clock stands
/// before 1970.
#[verifier::external_body]
pub(crate) fn current_timestamp() -> String {
    chrono::Utc::now().to_rfc3339()
}

/// Parses a JSON array of strings.
///
/// Trusted: stands for `serde_json::from_str` at the type `Vec<String>`.
/// The result is the list that the parser reads from the text, and `None`
/// where the parser reports an error; which texts parse, and to what, is
/// left to the parser and goes by the name `json_string_list`.
#[verifier::external_body]
pub(crate) fn parse_string_list(text: &str) -> (parsed: Option<Vec<String>>)
    ensures
        opt_views(parsed) == json_string_list(text@),
{
    match serde_json::from_str::<Vec<String>>(text) {
        Ok(list) => Some(list),
        Err(_) => None,
    }
}

/// Parses a JSON object with string values.
///
/// Trusted: stands for `serde_json::from_str` at the type
/// `HashMap<String, String>`, whose entries are handed out as a list. The
/// entries, stored one after the other, make up the map that the parser
/// reads from the text; the result is `None` where the parser reports an
/// error. The order of the list is not fixed.
#[verifier::external_body]
pub(crate) fn parse_string_map(text: &str) -> (parsed: Option<Vec<(String, String)>>)
    ensures
        match parsed {
            Some(entries) => json_string_map(text@) == Some(entries_fold(entries@)),
            None => json_string_map(text@) is None,
        },
{
    match serde_json::from_str::<std::collections::HashMap<String, String>>(text) {
        Ok(map) => Some(map.into_iter().collect()),
        Err(_) => None,
    }
}

/// Writes a list of strings as a JSON array.
///
/// Trusted: stands for `serde_json::to_string` at the type `Vec<String>`.
/// The result is the text that the encoder writes, and `None` where it
/// reports an error; the text goes by the name `json_of_string_list`.
#[verifier::external_body]
pub(crate) fn write_string_list(list: &Vec<String>) -> (text: Option<String>)
    ensures
        opt_view(text) == json_of_string_list(views(list@)),
{
    match serde_json::to_string(list) {
        Ok(text) => Some(text),
        Err(_) => None,
    }
}

/// Writes entries whose keys ascend as a JSON object.
///
/// Trusted: stands for `serde_json::to_string` at a `BTreeMap` that holds the
/// entries, which are handed over in the order of their keys. The result is
/// the text that the encoder writes, and `None` where it reports an error;
/// the text goes by the name `json_of_string_map`.
#[verifier::external_body]
pub(crate) fn write_string_map(entries: &Vec<(String, String)>) -> (text: Option<String>)
    requires
        keys_ascend(entries@),
    ensures
        opt_view(text) == json_of_string_map(entries_fold(entries@)),
{
    let object: std::collections::BTreeMap<&String, &String> = entries.iter().map(
        |e| (&e.0, &e.1),
    ).collect();
    match serde_json::to_string(&object) {
        Ok(text) => Some(text),
        Err(_) => None,
    }
}

} // verus!
