//! Cutting the bytes of a log into lines.
//!
//! A line ends at a line feed. The line feed is not part of the line, and
//! neither is a carriage return that stands directly before it. Bytes after
//! the last line feed form a last line of their own, which is kept as it is.

use vstd::prelude::*;
use vstd::slice::{slice_subrange, slice_to_vec};

verus! {

/// The line feed byte, which ends a line of a log.
pub const LINE_FEED: u8 = 10;

/// The carriage return byte.
pub const CARRIAGE_RETURN: u8 = 13;

/// The text holds no line feed and no carriage return, so that it stays one
/// line wherever it is written.
pub open spec fn is_single_line(text: Seq<u8>) -> bool {
    forall|i: int| 0 <= i < text.len() ==> text[i] != LINE_FEED && text[i] != CARRIAGE_RETURN
}

/// The text is empty or ends in a line feed: whatever is appended to it
/// starts a new line.
pub open spec fn is_terminated(text: Seq<u8>) -> bool {
    text.len() == 0 || text.last() == LINE_FEED
}

/// The number of bytes before the first line feed of `text`, which is
/// `text.len()` where it holds none.
pub open spec fn first_line_len(text: Seq<u8>) -> int
    decreases text.len(),
{
    if text.len() == 0 || text[0] == LINE_FEED {
        0
    } else {
        1 + first_line_len(text.skip(1))
    }
}

/// `line` without the carriage return at its end, if it has one.
pub open spec fn without_carriage_return(line: Seq<u8>) -> Seq<u8> {
    if line.len() > 0 && line.last() == CARRIAGE_RETURN {
        line.drop_last()
    } else {
        line
    }
}

/// The lines of `text`, in order.
pub open spec fn split_lines_spec(text: Seq<u8>) -> Seq<Seq<u8>>
    decreases text.len(),
{
    if text.len() == 0 {
        Seq::empty()
    } else {
        let n = first_line_len(text);
        if 0 <= n < text.len() {
            seq![without_carriage_return(text.take(n))] + split_lines_spec(text.skip(n + 1))
        } else {
            seq![text]
        }
    }
}

/// The lines held in `lines`, each taken by its view.
pub open spec fn line_views(lines: Seq<Vec<u8>>) -> Seq<Seq<u8>> {
    Seq::new(lines.len(), |i: int| lines[i]@)
}

/// `first_line_len` is the one position that has no line feed before it and
/// either a line feed at it or the end of the text.
pub proof fn lemma_first_line_len(text: Seq<u8>, n: int)
    requires
        0 <= n <= text.len(),
        forall|k: int| 0 <= k < n ==> text[k] != LINE_FEED,
        n < text.len() ==> text[n] == LINE_FEED,
    ensures
        first_line_len(text) == n,
    decreases n,
{
    if n > 0 {
        let rest = text.skip(1);
        assert forall|k: int| 0 <= k < n - 1 implies rest[k] != LINE_FEED by {
            assert(rest[k] == text[k + 1]);
        }
        lemma_first_line_len(rest, n - 1);
    }
}

/// The first line ends inside the text or at its end, and holds no line
/// feed.
pub proof fn lemma_first_line_len_bounds(text: Seq<u8>)
    ensures
        0 <= first_line_len(text) <= text.len(),
        forall|k: int| 0 <= k < first_line_len(text) ==> text[k] != LINE_FEED,
        first_line_len(text) < text.len() ==> text[first_line_len(text)] == LINE_FEED,
    decreases text.len(),
{
    if text.len() == 0 || text[0] == LINE_FEED {
    } else {
        let rest = text.skip(1);
        lemma_first_line_len_bounds(rest);
        assert forall|k: int| 0 <= k < first_line_len(text) implies text[k] != LINE_FEED by {
            if k > 0 {
                assert(text[k] == rest[k - 1]);
            }
        }
        let n = first_line_len(rest);
        assert(n < rest.len() ==> text[n + 1] == rest[n]);
    }
}

/// Appending one line and its line feed to a terminated text adds exactly
/// that line: the lines before it stay as they were.
pub proof fn lemma_split_lines_append(text: Seq<u8>, line: Seq<u8>)
    requires
        is_terminated(text),
        is_single_line(line),
    ensures
        split_lines_spec(text + line.push(LINE_FEED)) == split_lines_spec(text).push(line),
        is_terminated(text + line.push(LINE_FEED)),
    decreases text.len(),
{
    let added = line.push(LINE_FEED);
    let whole = text + added;
    if text.len() == 0 {
        assert(whole =~= added);
        lemma_first_line_len(added, line.len() as int);
        assert(added.take(line.len() as int) =~= line);
        assert(added.skip(line.len() as int + 1) =~= Seq::<u8>::empty());
        assert(split_lines_spec(Seq::<u8>::empty()) =~= Seq::<Seq<u8>>::empty());
        assert(without_carriage_return(line) == line) by {
            if line.len() > 0 {
                assert(line[line.len() - 1] != CARRIAGE_RETURN);
            }
        }
        assert(split_lines_spec(added) =~= seq![line]);
        assert(split_lines_spec(text).push(line) =~= seq![line]);
    } else {
        lemma_first_line_len_bounds(text);
        let n = first_line_len(text);
        assert(n < text.len()) by {
            if n == text.len() {
                assert(text[text.len() - 1] != LINE_FEED);
            }
        }
        assert forall|k: int| 0 <= k < n implies whole[k] != LINE_FEED by {
            assert(whole[k] == text[k]);
        }
        assert(whole[n] == text[n]);
        lemma_first_line_len(whole, n);
        let rest = text.skip(n + 1);
        assert(whole.take(n) =~= text.take(n));
        assert(whole.skip(n + 1) =~= rest + added);
        assert(is_terminated(rest)) by {
            if rest.len() > 0 {
                assert(rest.last() == text.last());
            }
        }
        lemma_split_lines_append(rest, line);
        let head = seq![without_carriage_return(text.take(n))];
        assert(split_lines_spec(whole) == head + split_lines_spec(rest + added));
        assert(split_lines_spec(text) == head + split_lines_spec(rest));
        assert(head + split_lines_spec(rest).push(line) =~= (head + split_lines_spec(rest)).push(
            line,
        ));
    }
    assert(whole.last() == LINE_FEED);
}

/// Cuts `text` into its lines.
pub fn split_lines(text: &[u8]) -> (lines: Vec<Vec<u8>>)
    ensures
        line_views(lines@) == split_lines_spec(text@),
{
    let mut lines: Vec<Vec<u8>> = Vec::new();
    let mut start: usize = 0;
    let mut i: usize = 0;
    proof {
        assert(text@.skip(0) =~= text@);
        assert(line_views(lines@) =~= Seq::<Seq<u8>>::empty());
        assert(Seq::<Seq<u8>>::empty() + split_lines_spec(text@) =~= split_lines_spec(text@));
    }
    while i < text.len()
        invariant
            start <= i <= text.len(),
            forall|k: int| start <= k < i ==> text@[k] != LINE_FEED,
            split_lines_spec(text@) == line_views(lines@) + split_lines_spec(
                text@.skip(start as int),
            ),
        decreases text.len() - i,
    {
        if text[i] == LINE_FEED {
            let end: usize = if start < i && text[i - 1] == CARRIAGE_RETURN {
                i - 1
            } else {
                i
            };
            let line = slice_to_vec(slice_subrange(text, start, end));
            proof {
                let tail = text@.skip(start as int);
                let n = i - start;
                assert forall|k: int| 0 <= k < n implies tail[k] != LINE_FEED by {
                    assert(tail[k] == text@[start + k]);
                }
                assert(tail[n] == text@[i as int]);
                lemma_first_line_len(tail, n);
                assert(tail.take(n) =~= text@.subrange(start as int, i as int));
                assert(without_carriage_return(tail.take(n)) =~= line@);
                assert(tail.skip(n + 1) =~= text@.skip(i + 1));
                assert(line_views(lines@.push(line)) =~= line_views(lines@).push(line@));
                assert(line_views(lines@).push(line@) + split_lines_spec(text@.skip(i + 1))
                    =~= line_views(lines@) + (seq![line@] + split_lines_spec(text@.skip(i + 1))));
            }
            lines.push(line);
            start = i + 1;
        }
        i += 1;
    }
    if start < text.len() {
        let line = slice_to_vec(slice_subrange(text, start, text.len()));
        proof {
            let tail = text@.skip(start as int);
            assert forall|k: int| 0 <= k < tail.len() implies tail[k] != LINE_FEED by {
                assert(tail[k] == text@[start + k]);
            }
            lemma_first_line_len(tail, tail.len() as int);
            assert(tail =~= line@);
            assert(line_views(lines@.push(line)) =~= line_views(lines@) + seq![tail]);
        }
        lines.push(line);
    } else {
        proof {
            assert(text@.skip(start as int).len() == 0);
            assert(line_views(lines@) + Seq::<Seq<u8>>::empty() =~= line_views(lines@));
        }
    }
    lines
}

} // verus!
