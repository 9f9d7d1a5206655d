//! Replay: folding the records of a log into the index.
//!
//! The index maps each key to the value of the last record written for it,
//! and holds no key whose last record is a tombstone.

use crate::error::DbError;
use crate::lines::{
    is_single_line, is_terminated, lemma_split_lines_append, line_views, split_lines,
    split_lines_spec,
};
use crate::record::{
    decode, decode_spec, encode_spec, record_line, DecodeError, Record, RecordView,
};
use serde_json::Value;
use vstd::hash_map::StringHashMap;
use vstd::prelude::*;

verus! {

/// The first line of a log that is no record, counted from 1, and why.
pub struct CorruptLine {
    pub line: nat,
    pub cause: DecodeError,
}

/// The index after `record` is applied to it: an insertion sets the key, a
/// tombstone removes it.
pub open spec fn apply_record(index: Map<Seq<char>, Value>, record: RecordView) -> Map<
    Seq<char>,
    Value,
> {
    match record.value {
        Some(value) => index.insert(record.key, value),
        None => index.remove(record.key),
    }
}

/// The index after all of `records` are applied to it, first to last.
pub open spec fn apply_all(index: Map<Seq<char>, Value>, records: Seq<RecordView>) -> Map<
    Seq<char>,
    Value,
>
    decreases records.len(),
{
    if records.len() == 0 {
        index
    } else {
        apply_record(apply_all(index, records.drop_last()), records.last())
    }
}

/// The records of `lines`, or the first line that is none.
pub open spec fn decode_lines(lines: Seq<Seq<u8>>) -> Result<Seq<RecordView>, CorruptLine>
    decreases lines.len(),
{
    if lines.len() == 0 {
        Ok(Seq::empty())
    } else {
        match decode_lines(lines.drop_last()) {
            Err(fault) => Err(fault),
            Ok(records) => match decode_spec(lines.last()) {
                Err(cause) => Err(CorruptLine { line: lines.len(), cause }),
                Ok(record) => Ok(records.push(record)),
            },
        }
    }
}

/// The index that the bytes of a log replay to, or its first corrupt line.
pub open spec fn replay_spec(log: Seq<u8>) -> Result<Map<Seq<char>, Value>, CorruptLine> {
    match decode_lines(split_lines_spec(log)) {
        Ok(records) => Ok(apply_all(Map::empty(), records)),
        Err(fault) => Err(fault),
    }
}

/// A tombstone takes precedence over everything written before it: once
/// it is applied the key is absent, however often the key was inserted.
pub proof fn lemma_tombstone_precedence(
    index: Map<Seq<char>, Value>,
    records: Seq<RecordView>,
    key: Seq<char>,
)
    ensures
        !apply_all(index, records.push(RecordView { key, value: None })).contains_key(key),
{
    let tombstone = RecordView { key, value: None };
    assert(records.push(tombstone).drop_last() =~= records);
}

/// The last write wins: after two insertions for one key the index holds
/// the value of the second.
pub proof fn lemma_last_write_wins(
    index: Map<Seq<char>, Value>,
    records: Seq<RecordView>,
    key: Seq<char>,
    first: Value,
    second: Value,
)
    ensures
        ({
            let written = records.push(RecordView { key, value: Some(first) }).push(
                RecordView { key, value: Some(second) },
            );
            apply_all(index, written).contains_key(key) && apply_all(index, written)[key] == second
        }),
{
    let once = records.push(RecordView { key, value: Some(first) });
    let twice = once.push(RecordView { key, value: Some(second) });
    assert(twice.drop_last() =~= once);
}

/// Records for other keys leave a key as it was.
pub proof fn lemma_other_keys_untouched(
    index: Map<Seq<char>, Value>,
    records: Seq<RecordView>,
    key: Seq<char>,
)
    requires
        forall|i: int| 0 <= i < records.len() ==> (#[trigger] records[i]).key != key,
    ensures
        apply_all(index, records).contains_key(key) == index.contains_key(key),
        index.contains_key(key) ==> apply_all(index, records)[key] == index[key],
    decreases records.len(),
{
    if records.len() > 0 {
        let before = records.drop_last();
        assert forall|i: int| 0 <= i < before.len() implies (#[trigger] before[i]).key != key by {
            assert(before[i] == records[i]);
        }
        lemma_other_keys_untouched(index, before, key);
        assert(records.last() == records[records.len() - 1]);
    }
}

/// The most recent record for a key decides: if it is an insertion the
/// index holds its value, if it is a tombstone the key is absent.
pub proof fn lemma_last_record_decides(
    index: Map<Seq<char>, Value>,
    records: Seq<RecordView>,
    last: int,
)
    requires
        0 <= last < records.len(),
        forall|i: int| last < i < records.len() ==> (#[trigger] records[i]).key != records[last].key,
    ensures
        match records[last].value {
            Some(value) => apply_all(index, records).contains_key(records[last].key) && apply_all(
                index,
                records,
            )[records[last].key] == value,
            None => !apply_all(index, records).contains_key(records[last].key),
        },
{
    let key = records[last].key;
    let upto = records.take(last + 1);
    let after = records.skip(last + 1);
    assert(upto.drop_last() =~= records.take(last));
    assert(upto.last() == records[last]);
    let decided = apply_all(index, upto);
    assert forall|i: int| 0 <= i < after.len() implies (#[trigger] after[i]).key != key by {
        assert(after[i] == records[last + 1 + i]);
    }
    lemma_other_keys_untouched(decided, after, key);
    lemma_apply_all_concat(index, upto, after);
    assert(upto + after =~= records);
}

/// Applying two runs of records in turn is applying them as one.
pub proof fn lemma_apply_all_concat(
    index: Map<Seq<char>, Value>,
    first: Seq<RecordView>,
    second: Seq<RecordView>,
)
    ensures
        apply_all(index, first + second) == apply_all(apply_all(index, first), second),
    decreases second.len(),
{
    if second.len() == 0 {
        assert(first + second =~= first);
    } else {
        lemma_apply_all_concat(index, first, second.drop_last());
        assert((first + second).drop_last() =~= first + second.drop_last());
        assert((first + second).last() == second.last());
    }
}

/// A value that was stored is present, whatever it is: a stored `null` is
/// a value like any other, and only a tombstone makes a key absent.
pub proof fn lemma_stored_is_present(index: Map<Seq<char>, Value>, key: Seq<char>, value: Value)
    ensures
        apply_record(index, RecordView { key, value: Some(value) }).contains_key(key),
        apply_record(index, RecordView { key, value: Some(value) })[key] == value,
        !apply_record(
            apply_record(index, RecordView { key, value: Some(value) }),
            RecordView { key, value: None },
        ).contains_key(key),
{
}

/// A record leaves a finite index finite.
pub proof fn lemma_apply_record_finite(index: Map<Seq<char>, Value>, record: RecordView)
    requires
        index.dom().finite(),
    ensures
        apply_record(index, record).dom().finite(),
{
}

/// Any run of records leaves a finite index finite.
pub proof fn lemma_apply_all_finite(index: Map<Seq<char>, Value>, records: Seq<RecordView>)
    requires
        index.dom().finite(),
    ensures
        apply_all(index, records).dom().finite(),
    decreases records.len(),
{
    if records.len() > 0 {
        lemma_apply_all_finite(index, records.drop_last());
        lemma_apply_record_finite(apply_all(index, records.drop_last()), records.last());
    }
}

/// The index that a log replays to holds finitely many keys.
pub proof fn lemma_replay_finite(log: Seq<u8>)
    ensures
        replay_spec(log) matches Ok(index) ==> index.dom().finite(),
{
    if let Ok(records) = decode_lines(split_lines_spec(log)) {
        lemma_apply_all_finite(Map::empty(), records);
    }
}

/// An empty log replays to an empty index.
pub proof fn lemma_replay_empty()
    ensures
        replay_spec(Seq::<u8>::empty()) == Ok::<Map<Seq<char>, Value>, CorruptLine>(Map::empty()),
{
    assert(split_lines_spec(Seq::<u8>::empty()) =~= Seq::<Seq<u8>>::empty());
}

/// Once a prefix of the lines holds a line that is no record, the whole of
/// them fails at that same line.
pub proof fn lemma_decode_lines_fault_stays(lines: Seq<Seq<u8>>, n: int)
    requires
        0 <= n <= lines.len(),
        decode_lines(lines.take(n)) is Err,
    ensures
        decode_lines(lines) == decode_lines(lines.take(n)),
    decreases lines.len() - n,
{
    if n == lines.len() {
        assert(lines.take(n) =~= lines);
    } else {
        let more = lines.take(n + 1);
        assert(more.drop_last() =~= lines.take(n));
        lemma_decode_lines_fault_stays(lines, n + 1);
    }
}

/// A log with a line that is no record does not replay: it fails at that
/// line or at an earlier one, whatever the other lines hold.
pub proof fn lemma_malformed_line_rejected(lines: Seq<Seq<u8>>, bad: int)
    requires
        0 <= bad < lines.len(),
        decode_spec(lines[bad]) is Err,
    ensures
        decode_lines(lines) matches Err(fault) && 1 <= fault.line <= bad + 1,
{
    let upto = lines.take(bad + 1);
    assert(upto.last() == lines[bad]);
    lemma_fault_line_in_range(upto.drop_last());
    lemma_decode_lines_fault_stays(lines, bad + 1);
}

/// A fault names a line of the lines given.
pub proof fn lemma_fault_line_in_range(lines: Seq<Seq<u8>>)
    ensures
        decode_lines(lines) matches Err(fault) ==> 1 <= fault.line <= lines.len(),
        decode_lines(lines) matches Ok(records) ==> records.len() == lines.len(),
    decreases lines.len(),
{
    if lines.len() > 0 {
        lemma_fault_line_in_range(lines.drop_last());
    }
}

/// Appending the line of one record to a log that replays, and that ends
/// where a line ends, gives a log that replays to the index with the record
/// applied. It asks that the record's text is a single line and decodes to
/// the record.
pub proof fn lemma_replay_append(log: Seq<u8>, index: Map<Seq<char>, Value>, record: RecordView)
    requires
        replay_spec(log) == Ok::<Map<Seq<char>, Value>, CorruptLine>(index),
        is_terminated(log),
        is_single_line(encode_spec(record)),
        decode_spec(encode_spec(record)) == Ok::<RecordView, DecodeError>(record),
    ensures
        replay_spec(log + record_line(record)) == Ok::<Map<Seq<char>, Value>, CorruptLine>(
            apply_record(index, record),
        ),
        is_terminated(log + record_line(record)),
{
    let line = encode_spec(record);
    lemma_split_lines_append(log, line);
    let before = split_lines_spec(log);
    let after = before.push(line);
    assert(after.drop_last() =~= before);
    assert(after.last() == line);
    let records = decode_lines(before)->Ok_0;
    assert(decode_lines(after) == Ok::<Seq<RecordView>, CorruptLine>(records.push(record)));
    assert(records.push(record).drop_last() =~= records);
}

/// Applies one record to the index.
pub fn apply(docs: &mut StringHashMap<Value>, record: Record)
    ensures
        final(docs)@ == apply_record(old(docs)@, record@),
        old(docs)@.dom().finite() ==> final(docs)@.dom().finite(),
{
    match record.value {
        Some(value) => {
            docs.insert(record.key, value);
        },
        None => {
            docs.remove(record.key.as_str());
        },
    }
}

/// Replays the bytes of a log into an index.
///
/// Every line must be a record. The first that is none fails the whole
/// replay with `CorruptLog`, which names that line, counted from 1, and no
/// index is handed out.
pub fn replay(log: &[u8]) -> (replayed: Result<StringHashMap<Value>, DbError>)
    ensures
        match replay_spec(log@) {
            Ok(index) => replayed matches Ok(docs) && docs@ == index,
            Err(fault) => replayed matches Err(DbError::CorruptLog { line, cause }) && line
                == fault.line && cause == fault.cause,
        },
        replayed matches Ok(docs) ==> docs@.dom().finite(),
{
    proof {
        lemma_replay_finite(log@);
    }
    let lines = split_lines(log);
    let mut docs: StringHashMap<Value> = StringHashMap::new();
    let mut i: usize = 0;
    proof {
        assert(line_views(lines@).take(0) =~= Seq::<Seq<u8>>::empty());
    }
    while i < lines.len()
        invariant
            i <= lines.len(),
            line_views(lines@) == split_lines_spec(log@),
            decode_lines(line_views(lines@).take(i as int)) matches Ok(records) && docs@
                == apply_all(Map::empty(), records),
        decreases lines.len() - i,
    {
        let ghost upto = line_views(lines@).take(i + 1);
        proof {
            assert(upto.drop_last() =~= line_views(lines@).take(i as int));
            assert(upto.last() == lines@[i as int]@);
        }
        match decode(lines[i].as_slice()) {
            Err(cause) => {
                proof {
                    lemma_decode_lines_fault_stays(line_views(lines@), i + 1);
                }
                return Err(DbError::CorruptLog { line: i + 1, cause });
            },
            Ok(record) => {
                proof {
                    let records = decode_lines(upto)->Ok_0;
                    assert(records.drop_last() =~= decode_lines(upto.drop_last())->Ok_0);
                }
                apply(&mut docs, record);
            },
        }
        i += 1;
    }
    proof {
        assert(line_views(lines@).take(i as int) =~= line_views(lines@));
    }
    Ok(docs)
}

} // verus!
