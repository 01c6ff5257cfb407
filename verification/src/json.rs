//! JSON, as far as it is needed here: whether a text is one JSON
//! document, and which strings and numbers an object holds under which
//! keys. Reading is done by `serde_json`.

use vstd::prelude::*;
use crate::text::opt_text;

verus! {

/// A JSON value as `serde_json` holds it.
#[verifier::external_type_specification]
#[verifier::external_body]
pub struct ExJsonValue(serde_json::Value);

/// What `serde_json::from_str` makes of `line`: the value it reads, or
/// the message of the error it reports.
pub uninterp spec fn json_parsed(line: Seq<char>) -> Result<serde_json::Value, Seq<char>>;

/// The member that `serde_json::Value::get` finds in `doc` under `key`.
pub uninterp spec fn json_member(doc: serde_json::Value, key: Seq<char>) -> Option<
    serde_json::Value,
>;

/// The string that `serde_json::Value::as_str` finds `value` to be.
pub uninterp spec fn json_text(value: serde_json::Value) -> Option<Seq<char>>;

/// The number that `serde_json::Value::as_u64` finds `value` to be.
pub uninterp spec fn json_count(value: serde_json::Value) -> Option<u64>;

/// `serde_json::from_str` to a `Value`: the value read from `line`, or
/// the message of the error where `line` is not one JSON value.
#[verifier::external_body]
pub(crate) fn parse_json(line: &str) -> (r: Result<serde_json::Value, String>)
    ensures
        match r {
            Ok(doc) => json_parsed(line@) == Ok::<serde_json::Value, Seq<char>>(doc),
            Err(msg) => json_parsed(line@) == Err::<serde_json::Value, Seq<char>>(msg@),
        },
{
    serde_json::from_str::<serde_json::Value>(line).map_err(|e| e.to_string())
}

/// `Value::get` with a string as the index: the member of `doc` under
/// `key`; `None` where `doc` is no object or has no such member.
#[verifier::external_body]
fn member<'a>(doc: &'a serde_json::Value, key: &str) -> (r: Option<&'a serde_json::Value>)
    ensures
        match r {
            Some(value) => json_member(*doc, key@) == Some(*value),
            None => json_member(*doc, key@) is None,
        },
{
    doc.get(key)
}

/// `Value::as_str`: the string that `value` is; `None` where it is
/// anything else.
#[verifier::external_body]
fn as_text(value: &serde_json::Value) -> (r: Option<String>)
    ensures
        opt_text(r) == json_text(*value),
{
    value.as_str().map(String::from)
}

/// `Value::as_u64`: the integer that `value` is, where it is one and fits
/// `u64`; `None` otherwise.
#[verifier::external_body]
fn as_count(value: &serde_json::Value) -> (r: Option<u64>)
    ensures
        r == json_count(*value),
{
    value.as_u64()
}

/// The string member of `doc` under `key`.
pub open spec fn text_at(doc: serde_json::Value, key: Seq<char>) -> Option<Seq<char>> {
    match json_member(doc, key) {
        Some(value) => json_text(value),
        None => None,
    }
}

/// The number that is the member of `doc` under `key`.
pub open spec fn count_at(doc: serde_json::Value, key: Seq<char>) -> Option<u64> {
    match json_member(doc, key) {
        Some(value) => json_count(value),
        None => None,
    }
}

/// The member of `doc` under `key`, where it is a string.
pub(crate) fn string_member(doc: &serde_json::Value, key: &str) -> (r: Option<String>)
    ensures
        opt_text(r) == text_at(*doc, key@),
{
    match member(doc, key) {
        Some(value) => as_text(value),
        None => None,
    }
}

/// The member of `doc` under `key`, where it is an integer that fits
/// `u64`.
pub(crate) fn count_member(doc: &serde_json::Value, key: &str) -> (r: Option<u64>)
    ensures
        r == count_at(*doc, key@),
{
    match member(doc, key) {
        Some(value) => as_count(value),
        None => None,
    }
}

} // verus!
