//! The record codec: one log entry to and from one line of JSON text.
//!
//! An insertion is the object `{"key": <string>, "value": <json>}`, a
//! tombstone the object `{"key": <string>}`. A `value` member that holds
//! `null` is an insertion of `null`; only a missing member marks a deletion.

use crate::json::{
    clone_value, json_as_str, json_bytes, json_is_object, json_member, json_object, json_parse,
    json_string, member_named, member_views, object_value, parse_value, string_value,
    value_as_str, value_bytes, value_is_object, value_member,
};
use crate::lines::{is_single_line, LINE_FEED};
use serde_json::Value;
use vstd::prelude::*;

verus! {

/// The name of the member that holds a record's key.
pub const KEY_FIELD: &'static str = "key";

/// The name of the member that holds a record's value.
pub const VALUE_FIELD: &'static str = "value";

/// One entry of the log: a key, and the value stored under it or `None` for
/// a tombstone.
#[derive(Clone, Debug, PartialEq)]
pub struct Record {
    pub key: String,
    pub value: Option<Value>,
}

/// What a `Record` stands for in contracts.
pub struct RecordView {
    pub key: Seq<char>,
    pub value: Option<Value>,
}

impl View for Record {
    type V = RecordView;

    open spec fn view(&self) -> RecordView {
        RecordView { key: self.key@, value: self.value }
    }
}

/// Why a line is no record.
#[derive(Clone, Copy, Debug, PartialEq, Eq)]
pub enum DecodeError {
    /// The line is not JSON text.
    InvalidJson,
    /// The line is JSON, but not an object.
    NotAnObject,
    /// The object has no member `key`.
    MissingKey,
    /// The member `key` is not a string.
    KeyNotText,
}

/// The members of the object that stands for `record`, in the order they are
/// written.
pub open spec fn record_members(record: RecordView) -> Seq<(Seq<char>, Value)> {
    match record.value {
        Some(value) => seq![(KEY_FIELD@, json_string(record.key)), (VALUE_FIELD@, value)],
        None => seq![(KEY_FIELD@, json_string(record.key))],
    }
}

/// The JSON object that stands for `record`.
pub open spec fn record_object(record: RecordView) -> Value {
    json_object(record_members(record))
}

/// The text of `record`: its object, printed compactly. The line feed that
/// ends the line in a log is not part of it.
pub open spec fn encode_spec(record: RecordView) -> Seq<u8> {
    json_bytes(record_object(record))
}

/// The bytes that `record` adds to a log: its text and the line feed that
/// ends the line.
pub open spec fn record_line(record: RecordView) -> Seq<u8> {
    encode_spec(record).push(LINE_FEED)
}

/// The record that a JSON value stands for.
pub open spec fn record_of_value(value: Value) -> Result<RecordView, DecodeError> {
    if !json_is_object(value) {
        Err(DecodeError::NotAnObject)
    } else {
        match json_member(value, KEY_FIELD@) {
            None => Err(DecodeError::MissingKey),
            Some(key) => match json_as_str(key) {
                None => Err(DecodeError::KeyNotText),
                Some(text) => Ok(
                    RecordView { key: text, value: json_member(value, VALUE_FIELD@) },
                ),
            },
        }
    }
}

/// The record that a line of text stands for.
pub open spec fn decode_spec(line: Seq<u8>) -> Result<RecordView, DecodeError> {
    match json_parse(line) {
        None => Err(DecodeError::InvalidJson),
        Some(value) => record_of_value(value),
    }
}

/// `serde_json` reads the text of `record` back as the object it printed.
///
/// It does not promise this of every value. Its parser refuses a value
/// nested deeper than it is willing to descend, and as this crate builds it,
/// it reads a number with a fraction with best effort only, so that a
/// neighbouring number may come back.
pub open spec fn reads_back(record: RecordView) -> bool {
    json_parse(encode_spec(record)) == Some(record_object(record))
}

/// The object of a record decodes to that record: the member `key` holds the
/// key as a string, and the member `value` is there exactly for an
/// insertion.
pub proof fn lemma_record_object_decodes(record: RecordView, object: Value)
    requires
        json_is_object(object),
        forall|name: Seq<char>|
            #[trigger] json_member(object, name) == member_named(record_members(record), name),
        json_as_str(json_string(record.key)) == Some(record.key),
    ensures
        record_of_value(object) == Ok::<RecordView, DecodeError>(record),
{
    reveal_strlit("key");
    reveal_strlit("value");
    reveal_with_fuel(member_named, 3);
    let members = record_members(record);
    assert(KEY_FIELD@ != VALUE_FIELD@) by {
        assert(KEY_FIELD@.len() == 3);
        assert(VALUE_FIELD@.len() == 5);
    }
    match record.value {
        Some(value) => {
            assert(members.drop_last() =~= seq![(KEY_FIELD@, json_string(record.key))]);
            assert(member_named(members, KEY_FIELD@) == Some(json_string(record.key)));
            assert(member_named(members, VALUE_FIELD@) == Some(value));
        },
        None => {
            assert(member_named(members, KEY_FIELD@) == Some(json_string(record.key)));
            assert(member_named(members.drop_last(), VALUE_FIELD@) is None);
            assert(member_named(members, VALUE_FIELD@) is None);
        },
    }
    assert(json_member(object, KEY_FIELD@) == Some(json_string(record.key)));
    assert(json_member(object, VALUE_FIELD@) == record.value);
}

/// Prints `record` as one line of JSON text, without the line feed.
///
/// The text never holds a line feed or a carriage return. Decoding it gives
/// `record` back whenever `serde_json` reads back what it printed.
pub fn encode(record: &Record) -> (line: Vec<u8>)
    ensures
        line@ == encode_spec(record@),
        is_single_line(line@),
        reads_back(record@) ==> decode_spec(line@) == Ok::<RecordView, DecodeError>(record@),
{
    let key = string_value(record.key.clone());
    let mut entries: Vec<(String, Value)> = Vec::new();
    entries.push((KEY_FIELD.to_owned(), key));
    match &record.value {
        Some(value) => {
            entries.push((VALUE_FIELD.to_owned(), clone_value(value)));
        },
        None => {},
    }
    proof {
        reveal_strlit("key");
        reveal_strlit("value");
        assert(KEY_FIELD@ != VALUE_FIELD@) by {
            assert(KEY_FIELD@.len() == 3);
            assert(VALUE_FIELD@.len() == 5);
        }
        assert(member_views(entries@) =~= record_members(record@));
    }
    let object = object_value(entries);
    proof {
        lemma_record_object_decodes(record@, object);
    }
    value_bytes(&object)
}

/// Prints `record` as it is written to a log: its text, ended by exactly one
/// line feed.
pub fn encode_line(record: &Record) -> (line: Vec<u8>)
    ensures
        line@ == record_line(record@),
        is_single_line(encode_spec(record@)),
        reads_back(record@) ==> decode_spec(encode_spec(record@)) == Ok::<RecordView, DecodeError>(
            record@,
        ),
{
    let mut line = encode(record);
    line.push(LINE_FEED);
    line
}

/// Reads the record that a JSON value stands for.
///
/// The value must be an object whose member `key` is a string. A member
/// `value`, whatever it holds, makes the record an insertion; without it the
/// record is a tombstone. Other members are passed over.
pub fn record_from_value(value: &Value) -> (decoded: Result<Record, DecodeError>)
    ensures
        match decoded {
            Ok(record) => record_of_value(*value) == Ok::<RecordView, DecodeError>(record@),
            Err(error) => record_of_value(*value) == Err::<RecordView, DecodeError>(error),
        },
{
    if !value_is_object(value) {
        return Err(DecodeError::NotAnObject);
    }
    match value_member(value, KEY_FIELD) {
        None => Err(DecodeError::MissingKey),
        Some(key) => match value_as_str(key) {
            None => Err(DecodeError::KeyNotText),
            Some(text) => {
                let stored = match value_member(value, VALUE_FIELD) {
                    Some(found) => Some(clone_value(found)),
                    None => None,
                };
                Ok(Record { key: text.to_owned(), value: stored })
            },
        },
    }
}

/// Reads one line of a log, given without its line feed, as a record.
///
/// It fails with `InvalidJson` where the line is not JSON text, and with the
/// error of `record_from_value` where the JSON value is no record. Where an
/// object writes a member twice, `serde_json` keeps the one written last,
/// and so does the record.
pub fn decode(line: &[u8]) -> (decoded: Result<Record, DecodeError>)
    ensures
        match decoded {
            Ok(record) => decode_spec(line@) == Ok::<RecordView, DecodeError>(record@),
            Err(error) => decode_spec(line@) == Err::<RecordView, DecodeError>(error),
        },
{
    match parse_value(line) {
        Err(_) => Err(DecodeError::InvalidJson),
        Ok(value) => record_from_value(&value),
    }
}

} // verus!
