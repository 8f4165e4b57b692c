//! The calls into serde_json and the std text splitting that the
//! classifier and the forwarder rely on. Every result is stated over the
//! JSON text itself.
use vstd::prelude::*;

use crate::text::texts;
use serde_json::Value;

verus! {

/// The text is one well-formed JSON document, as serde_json reads it.
pub uninterp spec fn is_json_text(s: Seq<char>) -> bool;

/// The JSON text of the member `key` of the object that `text` holds, as
/// serde_json prints it; `None` when `text` is not JSON or has no such member.
pub uninterp spec fn json_member(text: Seq<char>, key: Seq<char>) -> Option<Seq<char>>;

/// The contents of the JSON string that `text` holds; `None` when `text`
/// is not a JSON string.
pub uninterp spec fn json_string_of(text: Seq<char>) -> Option<Seq<char>>;

/// The printed JSON object `{k1: v1, k2: <the value of json>}`.
pub uninterp spec fn json_pair_object(
    k1: Seq<char>,
    v1: Seq<char>,
    k2: Seq<char>,
    json: Seq<char>,
) -> Seq<char>;

/// The lines of a text, as `str::lines` splits it.
pub uninterp spec fn lines_of(s: Seq<char>) -> Seq<Seq<char>>;

/// Relies on serde_json::from_str into a `Value`: it succeeds exactly on
/// well-formed JSON text.
#[verifier::external_body]
pub(crate) fn json_valid(text: &str) -> (r: bool)
    ensures
        r == is_json_text(text@),
{
    serde_json::from_str::<Value>(text).is_ok()
}

/// Relies on serde_json::Value::get with a string key, and on `Value`'s
/// printing: the member of a JSON object under `key`, printed as JSON.
#[verifier::external_body]
pub(crate) fn member_text(text: &str, key: &str) -> (r: Option<String>)
    ensures
        r matches Some(s) ==> json_member(text@, key@) == Some(s@),
        r is None ==> json_member(text@, key@) is None,
        r is Some ==> is_json_text(text@),
{
    serde_json::from_str::<Value>(text).ok()?.get(key).map(|v| v.to_string())
}

/// Relies on serde_json::Value::as_str: the contents of a JSON string.
#[verifier::external_body]
pub(crate) fn string_content(text: &str) -> (r: Option<String>)
    ensures
        r matches Some(s) ==> json_string_of(text@) == Some(s@),
        r is None ==> json_string_of(text@) is None,
{
    serde_json::from_str::<Value>(text).ok()?.as_str().map(|s| s.to_string())
}

/// Relies on serde_json's `Map::insert` and `Value`'s printing: the object
/// with the string `v1` under `k1` and the value of `json` under `k2`;
/// `None` exactly when `json` is not JSON.
#[verifier::external_body]
pub(crate) fn pair_object(k1: &str, v1: &str, k2: &str, json: &str) -> (r: Option<String>)
    ensures
        r is Some <==> is_json_text(json@),
        r matches Some(s) ==> s@ == json_pair_object(k1@, v1@, k2@, json@),
{
    let value = serde_json::from_str::<Value>(json).ok()?;
    let mut object = serde_json::Map::new();
    object.insert(k1.to_string(), Value::String(v1.to_string()));
    object.insert(k2.to_string(), value);
    Some(Value::Object(object).to_string())
}

/// Relies on `str::lines`: the text split at line ends.
#[verifier::external_body]
pub(crate) fn split_lines(text: &str) -> (r: Vec<String>)
    ensures
        texts(r@) == lines_of(text@),
{
    text.lines().map(|l| l.to_string()).collect()
}

} // verus!
