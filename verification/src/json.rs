//! The boundary to `serde_json`.
//!
//! A `serde_json::Value` is opaque to the verifier. This module names what
//! `serde_json` computes from one and wraps each call that the codec makes.
//! None of the contracts on these calls is proved: each restates what the
//! sources of `serde_json` show.

use crate::lines::{CARRIAGE_RETURN, LINE_FEED};
use serde_json::Value;
use vstd::prelude::*;

verus! {

/// Declares `serde_json::Value`, any JSON value, as a type whose inside the
/// verifier does not see. Two values are equal in a contract when they are
/// the same value, part for part.
#[verifier::external_type_specification]
#[verifier::external_body]
pub struct ExValue(serde_json::Value);

/// Declares `serde_json::Error`, which `serde_json::from_slice` returns for
/// text that it cannot read. Nothing is said of what it holds.
#[verifier::external_type_specification]
#[verifier::external_body]
pub struct ExJsonError(serde_json::Error);

/// The value that `serde_json::from_slice` reads from `text`, or `None` where
/// it reports an error.
pub uninterp spec fn json_parse(text: Seq<u8>) -> Option<Value>;

/// The compact JSON text that `serde_json::to_vec` prints for `value`.
pub uninterp spec fn json_bytes(value: Value) -> Seq<u8>;

/// Whether `value` is a JSON object, as `Value::is_object` tells.
pub uninterp spec fn json_is_object(value: Value) -> bool;

/// The member called `name` of `value`, as `Value::get` finds it: `None`
/// where `value` is no object or has no such member.
pub uninterp spec fn json_member(value: Value, name: Seq<char>) -> Option<Value>;

/// The text of `value` where it is a JSON string, as `Value::as_str` gives
/// it, and `None` for every other kind of value.
pub uninterp spec fn json_as_str(value: Value) -> Option<Seq<char>>;

/// The JSON string holding `text`, which is `Value::String` of it.
pub uninterp spec fn json_string(text: Seq<char>) -> Value;

/// The JSON object collected from `members`, a list of names with their
/// values.
pub uninterp spec fn json_object(members: Seq<(Seq<char>, Value)>) -> Value;

/// The names and values of `entries` with each name taken by its view.
pub open spec fn member_views(entries: Seq<(String, Value)>) -> Seq<(Seq<char>, Value)> {
    Seq::new(entries.len(), |i: int| (entries[i].0@, entries[i].1))
}

/// No two members carry the same name.
pub open spec fn distinct_names(members: Seq<(Seq<char>, Value)>) -> bool {
    forall|i: int, j: int|
        0 <= i < j < members.len() ==> (#[trigger] members[i]).0 != (#[trigger] members[j]).0
}

/// The value listed under `name` in `members`, if any. Where names are
/// distinct there is at most one.
pub open spec fn member_named(members: Seq<(Seq<char>, Value)>, name: Seq<char>) -> Option<Value>
    decreases members.len(),
{
    if members.len() == 0 {
        None
    } else if members.last().0 == name {
        Some(members.last().1)
    } else {
        member_named(members.drop_last(), name)
    }
}

/// Calls `serde_json::from_slice` for a `Value`. The result is a function of
/// the bytes alone; `json_parse` names it.
#[verifier::external_body]
pub(crate) fn parse_value(text: &[u8]) -> (parsed: Result<Value, serde_json::Error>)
    ensures
        match parsed {
            Ok(value) => json_parse(text@) == Some(value),
            Err(_) => json_parse(text@) is None,
        },
{
    serde_json::from_slice::<Value>(text)
}

/// Calls `serde_json::to_vec`, which prints compact JSON. It reports an
/// error only for an implementation of `Serialize` that fails, for a map
/// whose keys are not strings, or for a writer that fails; a `Value` printed
/// into a vector has none of these. The compact form holds no white space
/// between tokens, and inside strings every byte below `0x20` is escaped, so
/// the text holds neither a line feed nor a carriage return.
#[verifier::external_body]
pub(crate) fn value_bytes(value: &Value) -> (text: Vec<u8>)
    ensures
        text@ == json_bytes(*value),
        forall|i: int|
            0 <= i < text@.len() ==> text@[i] != LINE_FEED && text@[i] != CARRIAGE_RETURN,
{
    serde_json::to_vec(value).expect("printing a JSON value into a vector")
}

/// Calls `Value::is_object`.
#[verifier::external_body]
pub(crate) fn value_is_object(value: &Value) -> (is_object: bool)
    ensures
        is_object == json_is_object(*value),
{
    value.is_object()
}

/// Calls `Value::get` with a name. It looks the name up in an object and
/// returns `None` for any other value.
#[verifier::external_body]
pub(crate) fn value_member<'a>(value: &'a Value, name: &str) -> (member: Option<&'a Value>)
    ensures
        match member {
            Some(found) => json_member(*value, name@) == Some(*found),
            None => json_member(*value, name@) is None,
        },
{
    value.get(name)
}

/// Calls `Value::as_str`, which hands out the text of a JSON string.
#[verifier::external_body]
pub(crate) fn value_as_str<'a>(value: &'a Value) -> (text: Option<&'a str>)
    ensures
        match text {
            Some(s) => json_as_str(*value) == Some(s@),
            None => json_as_str(*value) is None,
        },
{
    value.as_str()
}

/// Builds `Value::String`. `Value::as_str` of it returns the text.
#[verifier::external_body]
pub(crate) fn string_value(text: String) -> (value: Value)
    ensures
        value == json_string(text@),
        json_as_str(value) == Some(text@),
{
    Value::String(text)
}

/// Collects names and values into a `Value::Object`, through the
/// `FromIterator` of `Value` for pairs. The names must differ: of two
/// entries with one name the map keeps a single one. The result is an
/// object, and `Value::get` finds in it exactly the members listed.
#[verifier::external_body]
pub(crate) fn object_value(entries: Vec<(String, Value)>) -> (value: Value)
    requires
        distinct_names(member_views(entries@)),
    ensures
        value == json_object(member_views(entries@)),
        json_is_object(value),
        forall|name: Seq<char>|
            #[trigger] json_member(value, name) == member_named(member_views(entries@), name),
{
    entries.into_iter().collect::<Value>()
}

/// Calls `Value::clone`, which copies the whole value.
#[verifier::external_body]
pub(crate) fn clone_value(value: &Value) -> (copy: Value)
    ensures
        copy == *value,
{
    value.clone()
}

} // verus!
