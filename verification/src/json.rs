//! Lookups into JSON and TOML documents given as text, by serde_json and
//! toml. Each lookup parses the text and reads one value, so that what the
//! rules read is tied to the raw text they were handed.

use vstd::prelude::*;
use serde_json::Value;

verus! {

/// The message of `serde_json`'s error on `text`, `None` when `text` parses
/// as a JSON value.
pub uninterp spec fn json_parse_error(text: Seq<char>) -> Option<Seq<char>>;

/// The string at JSON pointer `pointer` in the JSON text `text`; `None` when
/// the text does not parse or nothing, or no string, is there.
pub uninterp spec fn json_str_at(text: Seq<char>, pointer: Seq<char>) -> Option<Seq<char>>;

/// The boolean at JSON pointer `pointer` in the JSON text `text`.
pub uninterp spec fn json_bool_at(text: Seq<char>, pointer: Seq<char>) -> Option<bool>;

/// Something is at JSON pointer `pointer` in the JSON text `text`.
pub uninterp spec fn json_has_at(text: Seq<char>, pointer: Seq<char>) -> bool;

/// An object is at JSON pointer `pointer` in the JSON text `text`.
pub uninterp spec fn json_is_object_at(text: Seq<char>, pointer: Seq<char>) -> bool;

/// The string entry `key` of the TOML document `raw`: `Err` with the
/// parser's message when `raw` is not TOML, `Ok(None)` when the entry is
/// missing or not a string.
pub uninterp spec fn toml_str_entry(raw: Seq<char>, key: Seq<char>) -> Result<
    Option<Seq<char>>,
    Seq<char>,
>;

/// `serde_json::from_str::<Value>(text)`, its error shown with `Display`.
/// Claimed: the message is a function of the text alone.
#[verifier::external_body]
pub(crate) fn json_parse_error_of(text: &str) -> (res: Option<String>)
    ensures
        match res {
            Some(e) => json_parse_error(text@) == Some(e@),
            None => json_parse_error(text@) is None,
        },
{
    match serde_json::from_str::<Value>(text) {
        Ok(_) => None,
        Err(e) => Some(e.to_string()),
    }
}

/// `serde_json::from_str::<Value>(text)`, then `Value::pointer(pointer)`,
/// then `Value::as_str`. Claimed: the result is a function of the two texts.
#[verifier::external_body]
pub(crate) fn json_string_at(text: &str, pointer: &str) -> (res: Option<String>)
    ensures
        match res {
            Some(s) => json_str_at(text@, pointer@) == Some(s@),
            None => json_str_at(text@, pointer@) is None,
        },
{
    match serde_json::from_str::<Value>(text) {
        Ok(v) => v.pointer(pointer).and_then(Value::as_str).map(str::to_string),
        Err(_) => None,
    }
}

/// `serde_json::from_str::<Value>(text)`, then `Value::pointer(pointer)`,
/// then `Value::as_bool`. Claimed: the result is a function of the two texts.
#[verifier::external_body]
pub(crate) fn json_boolean_at(text: &str, pointer: &str) -> (res: Option<bool>)
    ensures
        res == json_bool_at(text@, pointer@),
{
    match serde_json::from_str::<Value>(text) {
        Ok(v) => v.pointer(pointer).and_then(Value::as_bool),
        Err(_) => None,
    }
}

/// `serde_json::from_str::<Value>(text)`, then `Value::pointer(pointer)`.
/// Claimed: whether a value is there is a function of the two texts.
#[verifier::external_body]
pub(crate) fn json_present_at(text: &str, pointer: &str) -> (res: bool)
    ensures
        res == json_has_at(text@, pointer@),
{
    match serde_json::from_str::<Value>(text) {
        Ok(v) => v.pointer(pointer).is_some(),
        Err(_) => false,
    }
}

/// `serde_json::from_str::<Value>(text)`, then `Value::pointer(pointer)`,
/// then `Value::is_object`. Claimed: the result is a function of the two
/// texts.
#[verifier::external_body]
pub(crate) fn json_object_at(text: &str, pointer: &str) -> (res: bool)
    ensures
        res == json_is_object_at(text@, pointer@),
{
    match serde_json::from_str::<Value>(text) {
        Ok(v) => v.pointer(pointer).is_some_and(Value::is_object),
        Err(_) => false,
    }
}

/// `toml::from_str::<toml::Value>(raw)`, then `Value::get(key)`, then
/// `Value::as_str`, the parse error shown with `Display`. Claimed: the
/// result is a function of the two texts.
#[verifier::external_body]
pub(crate) fn toml_string_entry(raw: &str, key: &str) -> (res: Result<Option<String>, String>)
    ensures
        match res {
            Ok(Some(s)) => toml_str_entry(raw@, key@) == Ok::<Option<Seq<char>>, Seq<char>>(Some(s@)),
            Ok(None) => toml_str_entry(raw@, key@) == Ok::<Option<Seq<char>>, Seq<char>>(None),
            Err(e) => toml_str_entry(raw@, key@) == Err::<Option<Seq<char>>, Seq<char>>(e@),
        },
{
    match toml::from_str::<toml::Value>(raw) {
        Ok(doc) => Ok(doc.get(key).and_then(toml::Value::as_str).map(str::to_string)),
        Err(e) => Err(e.to_string()),
    }
}

} // verus!
