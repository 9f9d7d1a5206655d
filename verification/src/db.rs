//! The store: an index in memory over an append-only log.

use crate::empty_sink::EmptySink;
use crate::error::{DbError, IoFailure};
use crate::lines::is_terminated;
use crate::record::{encode_line, reads_back, record_line, Record, RecordView};
use crate::replay::{
    apply, lemma_replay_append, lemma_replay_empty, replay, replay_spec, CorruptLine,
};
use crate::stream::{contents_after, Stream};
use serde_json::Value;
use vstd::hash_map::StringHashMap;
use vstd::prelude::*;

verus! {

/// A key/value store.
///
/// The store answers every read from its index, which it builds once, when
/// it is opened, by replaying the log in its stream. Every insertion and
/// removal changes the index at once and appends one record to the stream.
///
/// In contracts a store stands for its index, `db@`, a map from keys to
/// values, and `stream()` is the stream it writes to. The index holds
/// finitely many keys when the store is opened, and every insertion and
/// removal keeps it so.
pub struct DirtyDb<S: Stream> {
    docs: StringHashMap<Value>,
    writer: S,
}

impl<S: Stream> View for DirtyDb<S> {
    type V = Map<Seq<char>, Value>;

    closed spec fn view(&self) -> Map<Seq<char>, Value> {
        self.docs@
    }
}

impl DirtyDb<EmptySink> {
    /// Opens an empty store that keeps nothing beyond its own lifetime.
    pub fn in_memory() -> (db: DirtyDb<EmptySink>)
        ensures
            db@ == Map::<Seq<char>, Value>::empty(),
            db@.dom().finite(),
            db.in_sync(),
    {
        proof {
            lemma_replay_empty();
        }
        DirtyDb { docs: StringHashMap::new(), writer: EmptySink::new() }
    }
}

impl<S: Stream> DirtyDb<S> {
    /// The stream that holds the log of this store.
    pub closed spec fn stream(&self) -> S {
        self.writer
    }

    /// The index and the log are in step: replaying what the stream holds
    /// gives the index, and the log ends where a line ends, so that the next
    /// record starts a line of its own. Such an index holds finitely many
    /// keys.
    pub open spec fn in_sync(&self) -> bool {
        &&& replay_spec(self.stream().contents()) == Ok::<Map<Seq<char>, Value>, CorruptLine>(self@)
        &&& is_terminated(self.stream().contents())
        &&& self@.dom().finite()
    }

    /// Opens a store over `stream`: reads all of it and replays it.
    ///
    /// If the stream cannot be read, the open fails with what the stream
    /// reports; a reliable stream can always be read. If a line is no
    /// record, it fails with `CorruptLog` and the first such line, and no
    /// store is made. Otherwise the index is the replay of what the stream
    /// holds. Nothing is written.
    pub fn new(stream: S) -> (opened: Result<DirtyDb<S>, DbError>)
        ensures
            match opened {
                Ok(db) => {
                    &&& replay_spec(stream.contents()) == Ok::<Map<Seq<char>, Value>, CorruptLine>(
                        db@,
                    )
                    &&& db@.dom().finite()
                    &&& db.stream().contents() == stream.contents()
                    &&& db.stream().keeps() == stream.keeps()
                    &&& db.stream().reliable() == stream.reliable()
                },
                Err(DbError::CorruptLog { line, cause }) => replay_spec(stream.contents()) == Err::<
                    Map<Seq<char>, Value>,
                    CorruptLine,
                >(CorruptLine { line: line as nat, cause }),
                Err(DbError::IoFailure(_)) => !stream.reliable(),
            },
    {
        let mut stream = stream;
        let read = stream.read_all();
        DirtyDb::after_read(stream, read)
    }

    /// Finishes an open, given `stream` and what reading all of it gave.
    ///
    /// A failed read fails the open with that failure. Bytes that were read
    /// are replayed: the store holds their index and `stream`, or the open
    /// fails with `CorruptLog` and the first line that is no record.
    pub fn after_read(stream: S, read: Result<Vec<u8>, IoFailure>) -> (opened: Result<
        DirtyDb<S>,
        DbError,
    >)
        ensures
            match read {
                Err(failure) => opened == Err::<DirtyDb<S>, DbError>(DbError::IoFailure(failure)),
                Ok(contents) => match replay_spec(contents@) {
                    Ok(index) => opened matches Ok(db) && db@ == index && db@.dom().finite()
                        && db.stream() == stream,
                    Err(fault) => opened matches Err(DbError::CorruptLog { line, cause }) && line
                        == fault.line && cause == fault.cause,
                },
            },
    {
        match read {
            Err(failure) => Err(DbError::IoFailure(failure)),
            Ok(contents) => match replay(contents.as_slice()) {
                Err(error) => Err(error),
                Ok(docs) => Ok(DirtyDb { docs, writer: stream }),
            },
        }
    }

    /// Stores `value` under `key` and appends the insertion to the log.
    ///
    /// The index holds the value as soon as the call returns, whether or not
    /// the stream took the record. If the stream fails, the failure is
    /// returned; the stream may then hold a part of the record. Over a
    /// reliable stream the call succeeds.
    ///
    /// A store that is in step with a stream that keeps its log stays so, as
    /// long as the stream takes the record and `serde_json` reads the record
    /// back.
    pub fn insert(&mut self, key: String, value: Value) -> (written: Result<(), DbError>)
        ensures
            final(self)@ == old(self)@.insert(key@, value),
            final(self)@.contains_key(key@) && final(self)@[key@] == value,
            old(self)@.dom().finite() ==> final(self)@.dom().finite(),
            final(self).stream().keeps() == old(self).stream().keeps(),
            final(self).stream().reliable() == old(self).stream().reliable(),
            old(self).stream().reliable() ==> written is Ok,
            match written {
                Ok(_) => final(self).stream().contents() == contents_after(
                    old(self).stream().keeps(),
                    old(self).stream().contents(),
                    record_line(RecordView { key: key@, value: Some(value) }),
                ),
                Err(error) => error is IoFailure,
            },
            written is Ok && old(self).in_sync() && old(self).stream().keeps() && reads_back(
                RecordView { key: key@, value: Some(value) },
            ) ==> final(self).in_sync(),
    {
        let record = Record { key, value: Some(value) };
        let line = encode_line(&record);
        proof {
            if old(self).in_sync() && reads_back(record@) {
                lemma_replay_append(old(self).stream().contents(), old(self)@, record@);
            }
        }
        apply(&mut self.docs, record);
        self.write(line.as_slice())
    }

    /// The value stored under `key`, or `None` if the key is absent. It
    /// reads the index only.
    pub fn get(&self, key: &str) -> (found: Option<&Value>)
        ensures
            match found {
                Some(value) => self@.contains_key(key@) && *value == self@[key@],
                None => !self@.contains_key(key@),
            },
    {
        self.docs.get(key)
    }

    /// Removes `key` and appends a tombstone for it to the log, whether or
    /// not the key was present.
    ///
    /// The key is absent as soon as the call returns, whether or not the
    /// stream took the tombstone. If the stream fails, the failure is
    /// returned; the stream may then hold a part of the tombstone. Over a
    /// reliable stream the call succeeds.
    ///
    /// A store that is in step with a stream that keeps its log stays so, as
    /// long as the stream takes the tombstone and `serde_json` reads it back.
    pub fn remove(&mut self, key: &str) -> (written: Result<(), DbError>)
        ensures
            final(self)@ == old(self)@.remove(key@),
            !final(self)@.contains_key(key@),
            old(self)@.dom().finite() ==> final(self)@.dom().finite(),
            final(self).stream().keeps() == old(self).stream().keeps(),
            final(self).stream().reliable() == old(self).stream().reliable(),
            old(self).stream().reliable() ==> written is Ok,
            match written {
                Ok(_) => final(self).stream().contents() == contents_after(
                    old(self).stream().keeps(),
                    old(self).stream().contents(),
                    record_line(RecordView { key: key@, value: None }),
                ),
                Err(error) => error is IoFailure,
            },
            written is Ok && old(self).in_sync() && old(self).stream().keeps() && reads_back(
                RecordView { key: key@, value: None },
            ) ==> final(self).in_sync(),
    {
        let record = Record { key: key.to_owned(), value: None };
        let line = encode_line(&record);
        proof {
            if old(self).in_sync() && reads_back(record@) {
                lemma_replay_append(old(self).stream().contents(), old(self)@, record@);
            }
        }
        apply(&mut self.docs, record);
        self.write(line.as_slice())
    }

    /// Closes the store: flushes the stream and hands it back as it is.
    ///
    /// The store is given up by the call, so that nothing can be asked of
    /// it afterwards. If the flush fails, the failure is returned; over a
    /// reliable stream the close succeeds.
    pub fn close(self) -> (closed: Result<S, DbError>)
        ensures
            match closed {
                Ok(stream) => {
                    &&& stream.contents() == self.stream().contents()
                    &&& stream.keeps() == self.stream().keeps()
                    &&& stream.reliable() == self.stream().reliable()
                },
                Err(error) => error is IoFailure && !self.stream().reliable(),
            },
    {
        let mut writer = self.writer;
        let flushed = writer.flush();
        DirtyDb::after_flush(writer, flushed)
    }

    /// Finishes a close, given `stream` and what flushing it gave: the
    /// stream, or the failure of the flush.
    pub fn after_flush(stream: S, flushed: Result<(), IoFailure>) -> (closed: Result<S, DbError>)
        ensures
            match flushed {
                Ok(_) => closed == Ok::<S, DbError>(stream),
                Err(failure) => closed == Err::<S, DbError>(DbError::IoFailure(failure)),
            },
    {
        match flushed {
            Ok(_) => Ok(stream),
            Err(failure) => Err(DbError::IoFailure(failure)),
        }
    }

    /// Closes the store and opens it again over the same stream, which
    /// replays the log from its start.
    ///
    /// A store that was in step with its log comes back with the index it
    /// had: what was written is what is read. Over a reliable stream no
    /// failure of the stream comes in between.
    pub fn reopen(self) -> (reopened: Result<DirtyDb<S>, DbError>)
        ensures
            match reopened {
                Ok(db) => {
                    &&& replay_spec(self.stream().contents()) == Ok::<
                        Map<Seq<char>, Value>,
                        CorruptLine,
                    >(db@)
                    &&& db@.dom().finite()
                    &&& db.stream().contents() == self.stream().contents()
                    &&& db.stream().keeps() == self.stream().keeps()
                    &&& db.stream().reliable() == self.stream().reliable()
                },
                Err(DbError::CorruptLog { line, cause }) => replay_spec(self.stream().contents())
                    == Err::<Map<Seq<char>, Value>, CorruptLine>(
                    CorruptLine { line: line as nat, cause },
                ),
                Err(DbError::IoFailure(_)) => !self.stream().reliable(),
            },
            self.in_sync() ==> match reopened {
                Ok(db) => db@ == self@ && db.in_sync(),
                Err(error) => error is IoFailure,
            },
            self.in_sync() && self.stream().reliable() ==> reopened is Ok,
    {
        match self.close() {
            Err(error) => Err(error),
            Ok(stream) => DirtyDb::new(stream),
        }
    }

    /// Appends `line` to the stream. The index is not touched.
    fn write(&mut self, line: &[u8]) -> (written: Result<(), DbError>)
        ensures
            final(self)@ == old(self)@,
            final(self).stream().keeps() == old(self).stream().keeps(),
            final(self).stream().reliable() == old(self).stream().reliable(),
            old(self).stream().reliable() ==> written is Ok,
            match written {
                Ok(_) => final(self).stream().contents() == contents_after(
                    old(self).stream().keeps(),
                    old(self).stream().contents(),
                    line@,
                ),
                Err(error) => error is IoFailure,
            },
    {
        let appended = self.writer.append(line);
        DirtyDb::<S>::after_append(appended)
    }

    /// What a write returns, given what the append to the stream gave:
    /// success, or the failure of the append.
    pub fn after_append(appended: Result<(), IoFailure>) -> (written: Result<(), DbError>)
        ensures
            match appended {
                Ok(_) => written is Ok,
                Err(failure) => written == Err::<(), DbError>(DbError::IoFailure(failure)),
            },
    {
        match appended {
            Ok(_) => Ok(()),
            Err(failure) => Err(DbError::IoFailure(failure)),
        }
    }

    /// The index itself, to read.
    pub fn as_hashmap(&self) -> (index: &StringHashMap<Value>)
        ensures
            index@ == self@,
    {
        &self.docs
    }

    /// The number of keys that are present.
    pub fn len(&self) -> (count: usize)
        ensures
            count == self@.len(),
    {
        self.docs.len()
    }
}

} // verus!
