//! The JSON values that the OpenRouter stream parser reads, and the parse
//! that turns text into them (done by `serde_json`).
use vstd::prelude::*;

use crate::text::{chars_of, str_eq};

verus! {

/// A parsed JSON value, holding what the provider logic reads of it.
/// A number keeps its value when `serde_json` reads it as a `u64`
/// (`Number::as_u64`), and `None` otherwise.
#[derive(Debug, PartialEq, Eq)]
pub enum JsonValue {
    Null,
    Bool(bool),
    Number(Option<u64>),
    String(String),
    Array(Vec<JsonValue>),
    Object(Vec<(String, JsonValue)>),
}

#[verifier::external_type_specification]
#[verifier::external_body]
pub struct ExSerdeJsonValue(serde_json::Value);

/// What `serde_json::from_str::<serde_json::Value>` gives for `text`,
/// carried over into `JsonValue`, or the text of its error.
pub uninterp spec fn json_parse(text: Seq<char>) -> Result<JsonValue, Seq<char>>;

/// Carries a `serde_json::Value` over into a `JsonValue`, variant for
/// variant; numbers keep `Number::as_u64`. Nothing is stated of the result
/// here: `parse_json` states it through `json_parse`.
#[verifier::external_body]
fn json_from_serde(value: serde_json::Value) -> JsonValue {
    match value {
        serde_json::Value::Null => JsonValue::Null,
        serde_json::Value::Bool(b) => JsonValue::Bool(b),
        serde_json::Value::Number(n) => JsonValue::Number(n.as_u64()),
        serde_json::Value::String(s) => JsonValue::String(s),
        serde_json::Value::Array(items) => JsonValue::Array(items.into_iter().map(json_from_serde).collect()),
        serde_json::Value::Object(entries) => JsonValue::Object(
            entries.into_iter().map(|(k, v)| (k, json_from_serde(v))).collect(),
        ),
    }
}

/// Parses JSON text with `serde_json::from_str::<serde_json::Value>`.
/// The contract claims only that the result is the one `json_parse` names
/// for the text (and the error's `Display` text on failure); what JSON is
/// accepted is left to `serde_json`.
#[verifier::external_body]
pub(crate) fn parse_json(text: &str) -> (r: Result<JsonValue, String>)
    ensures
        match r {
            Ok(v) => json_parse(text@) == Ok::<JsonValue, Seq<char>>(v),
            Err(e) => json_parse(text@) == Err::<JsonValue, Seq<char>>(e@),
        },
{
    match serde_json::from_str::<serde_json::Value>(text) {
        Ok(value) => Ok(json_from_serde(value)),
        Err(error) => Err(error.to_string()),
    }
}

/// The value stored under `key` among `entries`, the first one if several.
pub open spec fn entries_get(entries: Seq<(String, JsonValue)>, key: Seq<char>) -> Option<JsonValue>
    decreases entries.len(),
{
    if entries.len() == 0 {
        None
    } else if entries[0].0@ == key {
        Some(entries[0].1)
    } else {
        entries_get(entries.drop_first(), key)
    }
}

/// `Value::get(key)`: the member `key` of an object, `None` for any other value.
pub open spec fn json_get(v: JsonValue, key: Seq<char>) -> Option<JsonValue> {
    match v {
        JsonValue::Object(entries) => entries_get(entries@, key),
        _ => None,
    }
}

/// `Value::as_str`.
pub open spec fn json_as_str(v: JsonValue) -> Option<Seq<char>> {
    match v {
        JsonValue::String(s) => Some(s@),
        _ => None,
    }
}

/// `Value::as_u64`.
pub open spec fn json_as_u64(v: JsonValue) -> Option<u64> {
    match v {
        JsonValue::Number(n) => n,
        _ => None,
    }
}

/// `Value::as_array().and_then(|a| a.first())`.
pub open spec fn json_first_item(v: JsonValue) -> Option<JsonValue> {
    match v {
        JsonValue::Array(items) => if items@.len() > 0 {
            Some(items@[0])
        } else {
            None
        },
        _ => None,
    }
}

/// Looks up `key` in an object.
pub fn get<'a>(v: &'a JsonValue, key: &str) -> (r: Option<&'a JsonValue>)
    ensures
        match r {
            Some(x) => json_get(*v, key@) == Some(*x),
            None => json_get(*v, key@) is None,
        },
{
    match v {
        JsonValue::Object(entries) => {
            let mut i: usize = 0;
            assert(entries@.skip(0) =~= entries@);
            while i < entries.len()
                invariant
                    i <= entries.len(),
                    json_get(*v, key@) == entries_get(entries@, key@),
                    entries_get(entries@, key@) == entries_get(entries@.skip(i as int), key@),
                decreases entries.len() - i,
            {
                assert(entries@.skip(i as int).drop_first() =~= entries@.skip(i + 1));
                assert(entries@.skip(i as int)[0] == entries@[i as int]);
                if str_eq(entries[i].0.as_str(), key) {
                    return Some(&entries[i].1);
                }
                i += 1;
            }
            None
        },
        _ => None,
    }
}

/// `Value::as_str`.
pub fn as_str(v: &JsonValue) -> (r: Option<&str>)
    ensures
        match r {
            Some(s) => json_as_str(*v) == Some(s@),
            None => json_as_str(*v) is None,
        },
{
    match v {
        JsonValue::String(s) => Some(s.as_str()),
        _ => None,
    }
}

/// `Value::as_u64`.
pub fn as_u64(v: &JsonValue) -> (r: Option<u64>)
    ensures
        r == json_as_u64(*v),
{
    match v {
        JsonValue::Number(n) => *n,
        _ => None,
    }
}

/// The first item of an array.
pub fn first_item(v: &JsonValue) -> (r: Option<&JsonValue>)
    ensures
        match r {
            Some(x) => json_first_item(*v) == Some(*x),
            None => json_first_item(*v) is None,
        },
{
    match v {
        JsonValue::Array(items) => if items.len() > 0 {
            Some(&items[0])
        } else {
            None
        },
        _ => None,
    }
}

} // verus!
