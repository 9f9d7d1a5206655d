//! A stream that holds nothing and keeps nothing.

use crate::error::IoFailure;
use crate::stream::Stream;
use vstd::prelude::*;

verus! {

/// A stream for a store that lives in memory only: it reads as empty, and
/// takes every write and drops it. It never fails.
#[derive(Clone, Copy, Debug)]
pub struct EmptySink {}

impl Default for EmptySink {
    fn default() -> (sink: EmptySink)
        ensures
            sink.contents() == Seq::<u8>::empty(),
            !sink.keeps(),
            sink.reliable(),
    {
        EmptySink {  }
    }
}

impl EmptySink {
    /// Makes the sink. All sinks are alike: empty, and keeping nothing.
    pub fn new() -> (sink: EmptySink)
        ensures
            sink.contents() == Seq::<u8>::empty(),
            !sink.keeps(),
            sink.reliable(),
    {
        EmptySink {  }
    }
}

impl Stream for EmptySink {
    open spec fn contents(&self) -> Seq<u8> {
        Seq::empty()
    }

    open spec fn keeps(&self) -> bool {
        false
    }

    open spec fn reliable(&self) -> bool {
        true
    }

    /// Reads nothing: the sink is at its end from the start.
    fn read_all(&mut self) -> (read: Result<Vec<u8>, IoFailure>)
        ensures
            read is Ok,
    {
        Ok(Vec::new())
    }

    /// Accepts the bytes and drops them.
    fn append(&mut self, bytes: &[u8]) -> (appended: Result<(), IoFailure>)
        ensures
            appended is Ok,
    {
        Ok(())
    }

    /// Has nothing to flush.
    fn flush(&mut self) -> (flushed: Result<(), IoFailure>)
        ensures
            flushed is Ok,
    {
        Ok(())
    }
}

} // verus!
