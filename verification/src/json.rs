//! The JSON documents the library handles (tool-call arguments) are held as
//! their text.  Reading them is `serde_json`'s work; the items here make the
//! calls and name their results.
use vstd::prelude::*;

verus! {

/// The text `serde_json` renders for the JSON document `text` denotes, or
/// `None` where `text` is not valid JSON.
pub uninterp spec fn json_canonical(text: Seq<char>) -> Option<Seq<char>>;

/// The string stored under `key` in the JSON object that `text` denotes, or
/// `None` where `text` is not a JSON object with a string under `key`.
pub uninterp spec fn json_str_field(text: Seq<char>, key: Seq<char>) -> Option<Seq<char>>;

/// The unsigned integer stored under `key` in the JSON object that `text`
/// denotes, or `None` where there is no such `u64` value.
pub uninterp spec fn json_u64_field(text: Seq<char>, key: Seq<char>) -> Option<u64>;

/// `serde_json::from_str::<serde_json::Value>` followed by `Value::to_string`:
/// the canonical rendering of a JSON text.  The contract claims only that the
/// result is a function of the text (named `json_canonical`).
#[verifier::external_body]
pub(crate) fn canonical_json(text: &str) -> (res: Option<String>)
    ensures
        res matches Some(r) ==> json_canonical(text@) == Some(r@),
        res is None ==> json_canonical(text@) is None,
{
    let v: serde_json::Value = serde_json::from_str(text).ok()?;
    Some(v.to_string())
}

/// `serde_json::from_str::<serde_json::Value>` and `Value::get(key)` with
/// `Value::as_str`: the string field `key` of a JSON object text.  The
/// contract claims only that the result is a function of `text` and `key`.
#[verifier::external_body]
pub(crate) fn str_field(text: &str, key: &str) -> (res: Option<String>)
    ensures
        res matches Some(r) ==> json_str_field(text@, key@) == Some(r@),
        res is None ==> json_str_field(text@, key@) is None,
{
    let v: serde_json::Value = serde_json::from_str(text).ok()?;
    Some(v.get(key)?.as_str()?.to_owned())
}

/// `serde_json::from_str::<serde_json::Value>` and `Value::get(key)` with
/// `Value::as_u64`: the unsigned integer field `key` of a JSON object text.
/// The contract claims only that the result is a function of `text` and `key`.
#[verifier::external_body]
pub(crate) fn u64_field(text: &str, key: &str) -> (res: Option<u64>)
    ensures
        res == json_u64_field(text@, key@),
{
    let v: serde_json::Value = serde_json::from_str(text).ok()?;
    v.get(key)?.as_u64()
}

} // verus!
