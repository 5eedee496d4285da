//! Laws that relate the operations of the adapter to each other.
//!
//! Each law speaks of adapters before and after successful calls, through the
//! relations that the contracts of the calls establish.

use crate::adapter::BufReaderWriter;
use crate::stream::{Call, Kind, SeekFrom, Stream};
use vstd::prelude::*;

verus! {

/// What was written is read back: after all of `data` was written, a seek back to
/// where the write began and an exact read of as many bytes yield `data`, and the
/// read cannot meet the end. Neither the capacity of the buffer nor what it held
/// plays a part.
pub proof fn round_trip<T: Stream>(
    start: BufReaderWriter<T>,
    data: Seq<u8>,
    written: BufReaderWriter<T>,
    seek_from: SeekFrom,
    rewound: BufReaderWriter<T>,
    got: Seq<u8>,
    done: BufReaderWriter<T>,
)
    requires
        start.wf(),
        BufReaderWriter::write_ok(start, data, data.len(), written),
        BufReaderWriter::seek_ok(written, seek_from, start@.position as u64, rewound),
    ensures
        got.len() == data.len() && BufReaderWriter::read_exact_ok(rewound, got, done) ==> got
            == data,
        !BufReaderWriter::read_exact_eof(rewound, data.len(), done),
{
    crate::model::lemma_write_at_read_back(start@.bytes, start@.position, data, 0, data.len());
}

/// One successful call of an adapter: a read, a write or a seek, with what went in
/// and what came out.
pub enum Step {
    /// A read of at most `want` bytes that returned the `n` bytes `got`.
    Read { want: nat, n: nat, got: Seq<u8> },
    /// An exact read that returned `got`.
    ReadExact { got: Seq<u8> },
    /// A write of `src` that took its first `n` bytes.
    Write { src: Seq<u8>, n: nat },
    /// A seek that arrived at offset `p`.
    Seek { seek_from: SeekFrom, p: u64 },
}

impl Step {
    /// The call took the adapter from `pre` to `post`.
    pub open spec fn taken<T: Stream>(
        self,
        pre: BufReaderWriter<T>,
        post: BufReaderWriter<T>,
    ) -> bool {
        match self {
            Step::Read { want, n, got } => BufReaderWriter::read_ok(pre, want, n, got, post),
            Step::ReadExact { got } => BufReaderWriter::read_exact_ok(pre, got, post),
            Step::Write { src, n } => BufReaderWriter::write_ok(pre, src, n, post),
            Step::Seek { seek_from, p } => BufReaderWriter::seek_ok(pre, seek_from, p, post),
        }
    }

    /// Where the call leaves a position: a read or a write advances it by the
    /// number of bytes that it moved, a seek puts it where it arrived.
    pub open spec fn moves(self, position: int) -> int {
        match self {
            Step::Read { n, .. } => position + n,
            Step::ReadExact { got } => position + got.len(),
            Step::Write { n, .. } => position + n,
            Step::Seek { p, .. } => p as int,
        }
    }
}

/// Where a sequence of calls leaves a position, by counting alone.
pub open spec fn position_after(position: int, steps: Seq<Step>) -> int
    decreases steps.len(),
{
    if steps.len() == 0 {
        position
    } else {
        steps.last().moves(position_after(position, steps.drop_last()))
    }
}

/// The position is what counting says: after any sequence of successful reads,
/// writes and seeks it is the position before the first of them, moved by every
/// call in turn, whatever the adapter did with its buffer to carry them out.
pub proof fn position_counts<T: Stream>(states: Seq<BufReaderWriter<T>>, steps: Seq<Step>)
    requires
        states.len() == steps.len() + 1,
        states[0].wf(),
        forall|i: int| 0 <= i < steps.len() ==> (#[trigger] steps[i]).taken(states[i], states[i + 1]),
    ensures
        states.last()@.position == position_after(states[0]@.position as int, steps),
    decreases steps.len(),
{
    if steps.len() > 0 {
        let earlier = states.drop_last();
        position_counts(earlier, steps.drop_last());
    }
}

/// Nothing is lost or doubled at the edge of what was written: after a write of
/// fewer bytes than the capacity, a read that finds nothing left to read in the
/// buffer has the buffer written out exactly once, and only then reads from the
/// stream, once. The stream then holds exactly the contents, the written bytes
/// among them where they belong, the buffer is clean, and what the read returns
/// lies behind the written bytes in the contents.
pub proof fn boundary_flush<T: Stream>(
    start: BufReaderWriter<T>,
    data: Seq<u8>,
    written: BufReaderWriter<T>,
    want: nat,
    n: nat,
    got: Seq<u8>,
    done: BufReaderWriter<T>,
)
    requires
        start.wf(),
        0 < data.len() < start.buffered().capacity(),
        BufReaderWriter::write_ok(start, data, data.len(), written),
        written.buffered().unread() == 0,
        BufReaderWriter::read_ok(written, want, n, got, done),
    ensures
        written.buffered().dirty,
        BufReaderWriter::dumps(written, done.stream().calls().drop_last()),
        done.stream().calls().last().kind() == Kind::Read,
        done.stream().bytes() == crate::model::write_at(start@.bytes, start@.position, data),
        done@.bytes == done.stream().bytes(),
        !done.buffered().dirty,
        crate::model::reads(done.stream().bytes(), start@.position + data.len(), want, n, got),
{
}

/// A read that finds a clean buffer with nothing left to read in it makes one call
/// on the stream, a read, and no other: for as many bytes as the buffer holds, or
/// for the whole request where that is no smaller. What the read answered is what
/// the buffer then holds, or what was returned.
pub proof fn single_refill<T: Stream>(
    pre: BufReaderWriter<T>,
    want: nat,
    n: nat,
    got: Seq<u8>,
    post: BufReaderWriter<T>,
)
    requires
        pre.wf(),
        !pre.buffered().dirty,
        pre.buffered().unread() == 0,
        BufReaderWriter::read_ok(pre, want, n, got, post),
    ensures
        post.stream().calls() == pre.stream().calls().push(
            if want < pre.buffered().capacity() {
                Call::Read(pre.buffered().capacity(), Some(post.buffered().filled))
            } else {
                Call::Read(want, Some(n))
            },
        ),
{
    let calls = post.stream().calls();
    assert(calls == calls.drop_last().push(calls.last()));
}

/// A seek among the buffered bytes leaves the stream alone: when a seek from the
/// start or from the position arrives inside the window, the stream is after it
/// what it was before.
///
/// The law leaves out seeks from the end, which always go to the stream.
pub proof fn seek_in_window<T: Stream>(
    pre: BufReaderWriter<T>,
    seek_from: SeekFrom,
    p: u64,
    post: BufReaderWriter<T>,
)
    requires
        pre.wf(),
        !(seek_from is End),
        pre.window_start() <= p < pre.window_end(),
        BufReaderWriter::seek_ok(pre, seek_from, p, post),
    ensures
        pre.seeks_in_window(seek_from),
        post.stream() == pre.stream(),
        post.buffered().data == pre.buffered().data,
        post.buffered().filled == pre.buffered().filled,
        post.buffered().dirty == pre.buffered().dirty,
{
}

} // verus!
