//! Reading and writing JSON. A JSON value is held as its text; an object or
//! an array is taken apart one level at a time, each part again as text.

use crate::dict::{entries_map, keys_distinct};
use serde_json::value::RawValue;
use std::collections::BTreeMap;
use vstd::prelude::*;

verus! {

/// The mapping that the JSON text `text` stands for where it is an object
/// whose members are all strings; `None` for any other text.
pub uninterp spec fn json_string_map(text: Seq<char>) -> Option<Map<Seq<char>, Seq<char>>>;

/// The JSON text of the object whose members are the strings of `mapping`.
pub uninterp spec fn json_map_text(mapping: Map<Seq<char>, Seq<char>>) -> Seq<char>;

/// The members of the JSON object `text`, each value as its own JSON text;
/// `None` where `text` is not a JSON object.
pub uninterp spec fn json_members(text: Seq<char>) -> Option<Map<Seq<char>, Seq<char>>>;

/// The items of the JSON array `text`, each as its own JSON text; `None`
/// where `text` is not a JSON array.
pub uninterp spec fn json_items(text: Seq<char>) -> Option<Seq<Seq<char>>>;

/// The string that the JSON text `text` stands for; `None` where `text` is
/// not a JSON string.
pub uninterp spec fn json_string(text: Seq<char>) -> Option<Seq<char>>;

/// The views of a list of texts.
pub open spec fn texts(items: Seq<String>) -> Seq<Seq<char>> {
    items.map_values(|item: String| item@)
}

/// `serde_json::from_str` at the type of a map from `String` to `String`.
/// Trusted: the result is the named `json_string_map`, handed over as a list
/// of entries in which no key occurs twice.
#[verifier::external_body]
pub(crate) fn parse_string_map(text: &str) -> (r: Option<Vec<(String, String)>>)
    ensures
        r is Some <==> json_string_map(text@) is Some,
        r matches Some(entries) ==> keys_distinct(entries@) && json_string_map(text@) == Some(
            entries_map(entries@),
        ),
{
    let parsed = serde_json::from_str::<BTreeMap<String, String>>(text).ok()?;
    Some(parsed.into_iter().collect())
}

/// `serde_json::to_string` on a map from `String` to `String`, which the
/// crate writes in the order of its keys. Trusted: the result is the named
/// `json_map_text`, it is not empty (an object opens with a brace), and
/// reading that text gives the mapping back.
#[verifier::external_body]
pub(crate) fn render_string_map(entries: &Vec<(String, String)>) -> (r: String)
    requires
        keys_distinct(entries@),
    ensures
        r@ == json_map_text(entries_map(entries@)),
        r@.len() > 0,
        json_string_map(r@) == Some(entries_map(entries@)),
{
    let mapping: BTreeMap<String, String> = entries.iter().cloned().collect();
    serde_json::to_string(&mapping).unwrap_or_default()
}

/// `serde_json::from_str` at the type of a map from `String` to raw JSON
/// values. Trusted: the result is the named `json_members`, handed over as a
/// list of entries in which no key occurs twice.
#[verifier::external_body]
pub(crate) fn parse_members(text: &str) -> (r: Option<Vec<(String, String)>>)
    ensures
        r is Some <==> json_members(text@) is Some,
        r matches Some(entries) ==> keys_distinct(entries@) && json_members(text@) == Some(
            entries_map(entries@),
        ),
{
    let parsed = serde_json::from_str::<BTreeMap<String, Box<RawValue>>>(text).ok()?;
    Some(parsed.into_iter().map(|(name, raw)| (name, raw.get().to_owned())).collect())
}

/// `serde_json::from_str` at the type of a list of raw JSON values. Trusted:
/// the result is the named `json_items`.
#[verifier::external_body]
pub(crate) fn parse_items(text: &str) -> (r: Option<Vec<String>>)
    ensures
        r is Some <==> json_items(text@) is Some,
        r matches Some(items) ==> json_items(text@) == Some(texts(items@)),
{
    let parsed = serde_json::from_str::<Vec<Box<RawValue>>>(text).ok()?;
    Some(parsed.into_iter().map(|raw| raw.get().to_owned()).collect())
}

/// `serde_json::from_str` at the type `String`. Trusted: the result is the
/// named `json_string`.
#[verifier::external_body]
pub(crate) fn parse_text(text: &str) -> (r: Option<String>)
    ensures
        r is Some <==> json_string(text@) is Some,
        r matches Some(value) ==> json_string(text@) == Some(value@),
{
    serde_json::from_str::<String>(text).ok()
}

} // verus!
