//! What the store asks of the stream it keeps its log in.

use crate::error::IoFailure;
use vstd::prelude::*;

verus! {

/// An append-only stream of bytes that holds a log.
///
/// A store reads its stream once, when it is opened, and from then on only
/// appends to it. The store owns the stream until it is closed.
///
/// In contracts a stream stands for `contents()`, the bytes that a read from
/// its start yields. A stream that keeps what it is given grows by every
/// append that it reports as done; one that does not keep it stays as it
/// is. A call may fail unless the stream is `reliable()`, and an append that
/// fails may have written a part of its bytes: nothing is said of the
/// contents after it.
///
/// An implementation says what it holds by defining `contents` and `keeps`,
/// and proves that its methods act on them as stated here. One that leaves
/// the two undefined is unknown to the verifier, and nothing can be proved
/// of a store over it. A stream is taken to be able to fail unless it says
/// otherwise.
pub trait Stream {
    /// The bytes that the stream holds.
    open spec fn contents(&self) -> Seq<u8> {
        arbitrary()
    }

    /// Whether the stream keeps what is appended to it.
    open spec fn keeps(&self) -> bool {
        arbitrary()
    }

    /// Whether no call on the stream ever fails.
    open spec fn reliable(&self) -> bool {
        false
    }

    /// Reads all that the stream holds, from its start.
    fn read_all(&mut self) -> (read: Result<Vec<u8>, IoFailure>)
        ensures
            final(self).contents() == old(self).contents(),
            final(self).keeps() == old(self).keeps(),
            final(self).reliable() == old(self).reliable(),
            read matches Ok(bytes) ==> bytes@ == old(self).contents(),
            old(self).reliable() ==> read is Ok,
    ;

    /// Appends `bytes` after all that the stream holds. `Ok` says that all
    /// of them were taken.
    fn append(&mut self, bytes: &[u8]) -> (appended: Result<(), IoFailure>)
        ensures
            final(self).keeps() == old(self).keeps(),
            final(self).reliable() == old(self).reliable(),
            appended is Ok ==> final(self).contents() == contents_after(
                old(self).keeps(),
                old(self).contents(),
                bytes@,
            ),
            old(self).reliable() ==> appended is Ok,
    ;

    /// Hands on to the storage below whatever the stream still buffers.
    fn flush(&mut self) -> (flushed: Result<(), IoFailure>)
        ensures
            final(self).contents() == old(self).contents(),
            final(self).keeps() == old(self).keeps(),
            final(self).reliable() == old(self).reliable(),
            old(self).reliable() ==> flushed is Ok,
    ;
}

/// What a stream holds once it has taken `bytes`: its contents with the
/// bytes at their end if it keeps them, and its contents as they were if it
/// does not.
pub open spec fn contents_after(keeps: bool, contents: Seq<u8>, bytes: Seq<u8>) -> Seq<u8> {
    if keeps {
        contents + bytes
    } else {
        contents
    }
}

} // verus!
