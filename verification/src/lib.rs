//! A small embedded key/value store kept in an append-only log of JSON records.
//!
//! Every mutation appends one line to the log; opening a store replays the
//! log, the last record for a key deciding whether the key is present and
//! what it holds.
//!
//! The store keeps its values as `serde_json::Value` and leaves the JSON
//! grammar to `serde_json`. What is proved here is everything around it: how
//! a record is laid out as a JSON object and read back, how a log is cut into
//! lines, how the lines fold into the index, and that the index and the log
//! kept by a store stay in step.

pub mod db;
pub mod empty_sink;
pub mod error;
pub mod json;
pub mod lines;
pub mod memory_log;
pub mod record;
pub mod replay;
pub mod stream;

pub use crate::db::DirtyDb;
pub use crate::empty_sink::EmptySink;
pub use crate::error::{DbError, IoFailure};
pub use crate::memory_log::MemoryLog;
pub use crate::record::{decode, encode, encode_line, DecodeError, Record};
pub use crate::replay::replay;
pub use crate::stream::Stream;
