//! A stream that keeps its bytes in memory.

use crate::error::IoFailure;
use crate::stream::Stream;
use vstd::prelude::*;
use vstd::slice::slice_to_vec;

verus! {

/// A log held in a vector of bytes. It reads back exactly what it was made
/// with and what was appended to it, and it never fails.
#[derive(Debug)]
pub struct MemoryLog {
    bytes: Vec<u8>,
}

impl MemoryLog {
    /// An empty log.
    pub fn new() -> (log: MemoryLog)
        ensures
            log.contents() == Seq::<u8>::empty(),
    {
        MemoryLog { bytes: Vec::new() }
    }

    /// A log that holds `bytes`.
    pub fn from_bytes(bytes: Vec<u8>) -> (log: MemoryLog)
        ensures
            log.contents() == bytes@,
    {
        MemoryLog { bytes }
    }

    /// The bytes that the log holds.
    pub fn as_bytes(&self) -> (bytes: &[u8])
        ensures
            bytes@ == self.contents(),
    {
        self.bytes.as_slice()
    }

    /// Gives up the log for the bytes that it holds.
    pub fn into_bytes(self) -> (bytes: Vec<u8>)
        ensures
            bytes@ == self.contents(),
    {
        self.bytes
    }
}

impl Stream for MemoryLog {
    closed spec fn contents(&self) -> Seq<u8> {
        self.bytes@
    }

    open spec fn keeps(&self) -> bool {
        true
    }

    open spec fn reliable(&self) -> bool {
        true
    }

    /// Reads a copy of all the bytes, and leaves them in place.
    fn read_all(&mut self) -> (read: Result<Vec<u8>, IoFailure>)
        ensures
            read is Ok,
    {
        Ok(slice_to_vec(self.bytes.as_slice()))
    }

    /// Appends the bytes.
    fn append(&mut self, bytes: &[u8]) -> (appended: Result<(), IoFailure>)
        ensures
            appended is Ok,
    {
        let mut copy = slice_to_vec(bytes);
        self.bytes.append(&mut copy);
        Ok(())
    }

    /// Has nothing to flush.
    fn flush(&mut self) -> (flushed: Result<(), IoFailure>)
        ensures
            flushed is Ok,
    {
        Ok(())
    }
}

} // verus!
