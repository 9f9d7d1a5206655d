//! The errors that the store reports.

use crate::record::DecodeError;
use vstd::prelude::*;

verus! {

/// A failure of the stream under a store, as the stream reported it.
#[derive(Clone, Debug, PartialEq, Eq)]
pub struct IoFailure {
    /// What the stream said went wrong.
    pub message: String,
}

/// Why an operation of the store failed.
#[derive(Clone, Debug, PartialEq, Eq)]
pub enum DbError {
    /// A line of the log is no record. `line` counts lines from 1.
    CorruptLog { line: usize, cause: DecodeError },
    /// The stream could not be read, written or flushed.
    IoFailure(IoFailure),
}

} // verus!
