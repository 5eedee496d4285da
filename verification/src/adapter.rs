//! The adapter: one buffer between a caller and a stream, one cursor for reading,
//! writing and seeking.

use crate::buffer::{Buffer, BufferView, ReadCommand, ReadExactCommand, WriteAllCommand};
use crate::error::Error;
use crate::stream::{Call, Kind, ReadStream, SeekFrom, Stream};
use vstd::prelude::*;

verus! {

/// The capacity of the buffer of an adapter made by [`BufReaderWriter::new`].
pub const DEFAULT_CAPACITY: usize = 8192;

/// What the caller of an adapter perceives: the contents of the stream as if every
/// write had reached it, and one position in it.
pub struct LogicalView {
    pub bytes: Seq<u8>,
    pub position: nat,
}

/// Buffered reading, writing and seeking over a stream of type `T`.
///
/// * A seek that lands among the buffered bytes does not touch the stream.
/// * A read or write of at least the capacity of the buffer bypasses the buffer.
///
/// The valid bytes of the buffer cover a *window* of the stream. The adapter keeps
/// track of where the window starts and of how far past that start the stream's own
/// cursor stands. After a failure of the stream it no longer knows where the stream
/// stands: only [`inv`](Self::inv) holds then, not [`wf`](Self::wf), which reading,
/// writing and seeking ask for. [`reset`](Self::reset) asks for `inv` alone and
/// leads back to `wf`.
pub struct BufReaderWriter<T: Stream> {
    inner: T,
    pos: u64,
    n: usize,
    buffer: Buffer,
}

impl<T: Stream> View for BufReaderWriter<T> {
    type V = LogicalView;

    /// The stream's bytes with the valid bytes of the buffer laid over them at the
    /// window's start, and the offset of the buffer's cursor in the stream.
    open spec fn view(&self) -> LogicalView {
        LogicalView {
            bytes: crate::model::write_at(
                self.stream().bytes(),
                self.window_start() as nat,
                self.buffered().valid(),
            ),
            position: (self.window_start() + self.buffered().cursor) as nat,
        }
    }
}

/// The state of an adapter, as the contracts speak of it.
impl<T: Stream> BufReaderWriter<T> {
    /// The underlying stream.
    pub closed spec fn stream(&self) -> T {
        self.inner
    }

    /// The buffer.
    pub closed spec fn buffered(&self) -> BufferView {
        self.buffer@
    }

    /// How far past the start of the window the cursor of the stream stands.
    pub closed spec fn ahead(&self) -> nat {
        self.n as nat
    }

    /// The offset in the stream of the first byte of the buffer.
    pub closed spec fn window_start(&self) -> int {
        self.pos - self.n
    }

    /// The offset in the stream behind the last valid byte of the buffer.
    pub open spec fn window_end(&self) -> int {
        self.window_start() + self.buffered().filled
    }

    /// The bookkeeping is sound in itself: the buffer is, the window starts at an
    /// offset of the stream, and every position in it fits in a `u64`.
    pub open spec fn inv(&self) -> bool {
        &&& self.buffered().inv()
        &&& self.ahead() <= self.buffered().filled
        &&& 0 <= self.window_start()
        &&& self.window_end() <= u64::MAX
    }

    /// The bookkeeping is sound and agrees with the stream: the stream's cursor
    /// stands where the adapter believes it to, and a clean buffer holds a copy of
    /// the window, with the stream's cursor at the window's end.
    pub open spec fn wf(&self) -> bool {
        &&& self.inv()
        &&& self.stream().cursor() == self.window_start() + self.ahead()
        &&& !self.buffered().dirty ==> {
            &&& self.ahead() == self.buffered().filled
            &&& crate::model::mirrors(
                self.stream().bytes(),
                self.window_start() as nat,
                self.buffered().valid(),
            )
        }
    }

    /// `calls` is what the stream of `pre` has seen once a writing-out of the
    /// buffer was under way: the calls that it had seen before, a seek back by
    /// `ahead` if its cursor stood past the start of the window, and then writes and
    /// nothing else, at least one if `some` says so and none otherwise.
    pub open spec fn wrote_out(pre: Self, some: bool, calls: Seq<Call>) -> bool {
        crate::stream::then_run(
            pre.stream().calls(),
            if pre.ahead() > 0 {
                seq![
                    Call::Seek(
                        SeekFrom::Current((0 - pre.ahead()) as i64),
                        Some(pre.window_start() as u64),
                    ),
                ]
            } else {
                Seq::empty()
            },
            Kind::Write,
            some,
            calls,
        )
    }

    /// `calls` is what the stream of `pre` has seen once the buffer of `pre` was
    /// written out to it: with at least one write if the buffer holds anything, and
    /// with none if it does not.
    pub open spec fn dumps(pre: Self, calls: Seq<Call>) -> bool {
        Self::wrote_out(pre, pre.buffered().filled > 0, calls)
    }

    /// `calls` is what the stream of `pre` has seen once `pre` has given up its
    /// window: after the buffer was written out, if `dump` says so, and no more
    /// than it had seen before otherwise.
    pub open spec fn leaves(pre: Self, dump: bool, calls: Seq<Call>) -> bool {
        if dump {
            Self::dumps(pre, calls)
        } else {
            calls == pre.stream().calls()
        }
    }

    /// `calls` ends with the call `last`, and what precedes it is what the stream
    /// of `pre` has seen once `pre` has given up its window.
    pub open spec fn leaves_then(pre: Self, dump: bool, last: Call, calls: Seq<Call>) -> bool {
        &&& calls.len() > 0
        &&& calls.last() == last
        &&& Self::leaves(pre, dump, calls.drop_last())
    }

    /// `calls` is what the stream of `pre` has seen once `pre` has given up its
    /// window and the stream was brought to the position: by a seek to it, if unread
    /// bytes were left in the buffer, and without one otherwise.
    pub open spec fn aims(pre: Self, dump: bool, calls: Seq<Call>) -> bool {
        if pre.buffered().unread() > 0 {
            Self::leaves_then(
                pre,
                dump,
                Call::Seek(SeekFrom::Start(pre@.position as u64), Some(pre@.position as u64)),
                calls,
            )
        } else {
            Self::leaves(pre, dump, calls)
        }
    }

    /// `calls` ends with reads and no other calls, at least one if `some` says so,
    /// none otherwise and never more than `most`, and what precedes them is what
    /// the stream of `pre` has seen once `pre` has given up its window. Where it is
    /// a single read, `once` holds.
    pub open spec fn leaves_then_reads(
        pre: Self,
        dump: bool,
        some: bool,
        most: nat,
        once: bool,
        calls: Seq<Call>,
    ) -> bool {
        exists|mid: Seq<Call>| #[trigger]
            Self::leaves(pre, dump, mid) && crate::stream::then_run(
                mid,
                Seq::empty(),
                Kind::Read,
                some,
                calls,
            ) && calls.len() <= mid.len() + most && (calls.len() == mid.len() + 1 ==> once)
    }

    /// The stream of `post` has seen a call that the stream of `pre` had not.
    pub open spec fn called(pre: Self, post: Self) -> bool {
        post.stream().calls().len() > pre.stream().calls().len()
    }

    /// A failure is an answer of the stream: the last call that the stream of
    /// `post` has seen, one that the stream of `pre` had not, was a write that took
    /// nothing of what it was handed, if `incomplete` says so, and a call that
    /// failed otherwise.
    pub open spec fn stream_failed(pre: Self, incomplete: bool, post: Self) -> bool {
        &&& Self::called(pre, post)
        &&& if incomplete {
            post.stream().calls().last().took_nothing()
        } else {
            post.stream().calls().last().failed()
        }
    }

    /// Where a failure of the stream leaves the adapter that was about to write
    /// its buffer out: buffer and window are as in `pre`, and the cursor of the
    /// stream is taken to stand where it stood or, after a seek back, at the
    /// window's start.
    pub open spec fn keeps_window(pre: Self, post: Self) -> bool {
        &&& post.buffered() == pre.buffered()
        &&& post.window_start() == pre.window_start()
        &&& post.ahead() == pre.ahead() || post.ahead() == 0
    }

    /// Where a failure of the stream leaves the adapter that had given up its
    /// window and brought the stream to the position: the buffer is empty, and the
    /// window starts at the position of `pre`.
    pub open spec fn at_position(pre: Self, post: Self) -> bool {
        &&& post.buffered().cursor == 0
        &&& post.buffered().filled == 0
        &&& !post.buffered().dirty
        &&& post.buffered().data.len() == pre.buffered().data.len()
        &&& post.window_start() == pre@.position
        &&& post.ahead() == 0
    }

    /// Where a failure of the stream leaves the adapter that had given up its
    /// window: the buffer is empty, and the window starts where the window of `pre`
    /// ended.
    pub open spec fn left_window(pre: Self, post: Self) -> bool {
        &&& post.buffered().cursor == 0
        &&& post.buffered().filled == 0
        &&& !post.buffered().dirty
        &&& post.buffered().data.len() == pre.buffered().data.len()
        &&& post.window_start() == pre.window_end()
        &&& post.ahead() == 0
    }

}

/// Making an adapter, looking into it, taking it apart.
impl<T: Stream> BufReaderWriter<T> {
    /// An adapter over `inner` with a buffer of [`DEFAULT_CAPACITY`] bytes.
    ///
    /// The adapter counts positions from the start of the stream; it is well formed
    /// if the cursor of `inner` stands there.
    pub fn new(inner: T) -> (r: Self)
        ensures
            r.inv(),
            r.stream() == inner,
            r.buffered() == (BufferView {
                data: Seq::new(DEFAULT_CAPACITY as nat, |i: int| 0u8),
                cursor: 0,
                filled: 0,
                dirty: false,
            }),
            r.window_start() == 0,
            r.ahead() == 0,
            inner.cursor() == 0 ==> r.wf(),
    {
        Self::with_capacity(inner, DEFAULT_CAPACITY)
    }

    /// An adapter over `inner` with a buffer of `capacity` bytes. With a capacity
    /// of zero every read and write goes to the stream directly.
    pub fn with_capacity(inner: T, capacity: usize) -> (r: Self)
        requires
            capacity <= isize::MAX,
        ensures
            r.inv(),
            r.stream() == inner,
            r.buffered() == (BufferView {
                data: Seq::new(capacity as nat, |i: int| 0u8),
                cursor: 0,
                filled: 0,
                dirty: false,
            }),
            r.window_start() == 0,
            r.ahead() == 0,
            inner.cursor() == 0 ==> r.wf(),
    {
        BufReaderWriter { inner, pos: 0, n: 0, buffer: Buffer::with_capacity(capacity) }
    }

    /// An adapter over `inner` that uses `region` as its buffer; the capacity is the
    /// length of the region.
    pub fn with_region(inner: T, region: Vec<u8>) -> (r: Self)
        requires
            region@.len() <= isize::MAX,
        ensures
            r.inv(),
            r.stream() == inner,
            r.buffered() == (BufferView { data: region@, cursor: 0, filled: 0, dirty: false }),
            r.window_start() == 0,
            r.ahead() == 0,
            inner.cursor() == 0 ==> r.wf(),
    {
        BufReaderWriter { inner, pos: 0, n: 0, buffer: Buffer::from_region(region) }
    }

    /// The position at which the next byte is read or written.
    pub fn position(&self) -> (r: u64)
        requires
            self.inv(),
        ensures
            r == self@.position,
    {
        self.start_position_in_source() + self.buffer.position() as u64
    }

    /// The position, as a seek by nothing would report it.
    pub fn stream_position(&mut self) -> (r: Result<u64, Error<T::Error>>)
        requires
            old(self).inv(),
        ensures
            *final(self) == *old(self),
            r matches Ok(p) && p == old(self)@.position,
    {
        Ok(self.position())
    }

    /// The number of bytes the buffer can hold.
    pub fn capacity(&self) -> (r: usize)
        ensures
            r == self.buffered().capacity(),
    {
        self.buffer.capacity()
    }

    /// The underlying stream.
    pub fn inner(&self) -> (r: &T)
        ensures
            *r == self.stream(),
    {
        &self.inner
    }

    /// The underlying stream, to be changed in place.
    ///
    /// The adapter does not see what is done to the stream. It stays well formed
    /// if the stream is left as it was found; flush before doing anything else.
    pub fn inner_mut(&mut self) -> (r: &mut T)
        ensures
            *r == old(self).stream(),
            final(self).stream() == *final(r),
            final(self).buffered() == old(self).buffered(),
            final(self).window_start() == old(self).window_start(),
            final(self).ahead() == old(self).ahead(),
    {
        &mut self.inner
    }

    /// The buffer.
    pub fn buffer(&self) -> (r: &Buffer)
        ensures
            r@ == self.buffered(),
    {
        &self.buffer
    }

    /// The offset in the stream of the first byte of the buffer.
    pub fn start_position_in_source(&self) -> (r: u64)
        requires
            self.inv(),
        ensures
            r == self.window_start(),
    {
        self.pos - self.n as u64
    }

    /// Gives up the adapter for its stream, after a flush if the buffer holds
    /// unwritten data: the stream then holds everything that was written.
    ///
    /// Where the flush fails the stream is lost with the adapter; the adapter that
    /// is lost is one that a failed flush leaves.
    pub fn into_inner(self) -> (r: Result<T, Error<T::Error>>)
        requires
            self.wf(),
        ensures
            r matches Ok(stream) ==> {
                &&& stream.bytes() == self@.bytes
                &&& !self.buffered().dirty ==> stream == self.stream()
                &&& self.buffered().dirty ==> {
                    &&& stream.cursor() == self.window_end()
                    &&& Self::leaves_then(self, true, Call::Flush(true), stream.calls())
                }
            },
            !self.buffered().dirty ==> r is Ok,
            r matches Err(e) ==> exists|lost: Self| #[trigger]
                Self::flush_failed(self, e is IncompleteWrite, lost),
            r matches Err(e) ==> e is Io || e is IncompleteWrite,
    {
        let mut this = self;
        proof {
            if !this.buffered().dirty {
                crate::model::lemma_write_at_mirrored(
                    this.stream().bytes(),
                    this.window_start() as nat,
                    this.buffered().valid(),
                );
            }
        }
        match this.flush_if_dirty() {
            Ok(()) => Ok(this.inner),
            Err(e) => {
                assert(Self::flush_failed(self, e is IncompleteWrite, this));
                Err(e)
            },
        }
    }

    /// Gives up the adapter for its stream and the region of its buffer, after a
    /// flush if the buffer holds unwritten data. The region can serve another
    /// adapter as its buffer.
    ///
    /// Where the flush fails both are lost with the adapter; the adapter that is
    /// lost is one that a failed flush leaves.
    pub fn into_parts(self) -> (r: Result<(T, Vec<u8>), Error<T::Error>>)
        requires
            self.wf(),
        ensures
            r matches Ok(parts) ==> {
                &&& parts.0.bytes() == self@.bytes
                &&& !self.buffered().dirty ==> parts.0 == self.stream()
                &&& self.buffered().dirty ==> {
                    &&& parts.0.cursor() == self.window_end()
                    &&& Self::leaves_then(self, true, Call::Flush(true), parts.0.calls())
                }
                &&& parts.1@ == self.buffered().data
            },
            !self.buffered().dirty ==> r is Ok,
            r matches Err(e) ==> exists|lost: Self| #[trigger]
                Self::flush_failed(self, e is IncompleteWrite, lost),
            r matches Err(e) ==> e is Io || e is IncompleteWrite,
    {
        let mut this = self;
        proof {
            if !this.buffered().dirty {
                crate::model::lemma_write_at_mirrored(
                    this.stream().bytes(),
                    this.window_start() as nat,
                    this.buffered().valid(),
                );
            }
        }
        match this.flush_if_dirty() {
            Ok(()) => Ok((this.inner, this.buffer.into_region())),
            Err(e) => {
                assert(Self::flush_failed(self, e is IncompleteWrite, this));
                Err(e)
            },
        }
    }
}

/// Flushing.
impl<T: Stream> BufReaderWriter<T> {
    /// Writes the valid bytes of the buffer to the stream, at the window's start.
    /// The buffer keeps its contents, its cursor and its flag.
    ///
    /// The stream's cursor is first moved back to the window's start if it stands
    /// ahead of it, and stands at the window's end afterwards. A failure is the
    /// stream's: the seek or a write failed, or a write took nothing.
    pub fn flush_buffer(&mut self) -> (r: Result<(), Error<T::Error>>)
        requires
            old(self).wf(),
        ensures
            final(self).inv(),
            final(self).buffered() == old(self).buffered(),
            final(self).window_start() == old(self).window_start(),
            final(self).stream().calls().len() >= old(self).stream().calls().len(),
            r matches Err(e) ==> Self::keeps_window(*old(self), *final(self))
                && Self::stream_failed(*old(self), e is IncompleteWrite, *final(self)),
            r matches Err(e) && e is IncompleteWrite ==> Self::dumps(
                *old(self),
                final(self).stream().calls(),
            ),
            r is Ok ==> {
                &&& final(self).wf()
                &&& final(self)@ == old(self)@
                &&& final(self).stream().bytes() == old(self)@.bytes
                &&& final(self).stream().cursor() == old(self).window_end()
                &&& final(self).ahead() == old(self).buffered().filled
                &&& Self::dumps(*old(self), final(self).stream().calls())
            },
            old(self).buffered().filled == 0 ==> r is Ok && *final(self) == *old(self),
            r matches Err(e) ==> e is Io || e is IncompleteWrite && old(self).buffered().filled > 0,
    {
        if self.n != 0 {
            let back: i64 = -(self.n as i64);
            let sought = self.inner.seek(SeekFrom::Current(back));
            proof {
                crate::stream::lemma_pushed(
                    old(self).stream().calls(),
                    Call::Seek(SeekFrom::Current(back), crate::stream::offset(sought)),
                );
            }
            match sought {
                Ok(p) => {
                    self.pos = p;
                    self.n = 0;
                },
                Err(e) => {
                    return Err(Error::Io(e));
                },
            }
        }
        let ghost sought = self.stream().calls();
        let dumped = self.buffer.dump(&mut self.inner);
        proof {
            crate::stream::lemma_run_length(
                sought,
                Seq::empty(),
                Kind::Write,
                old(self).buffered().filled > 0,
                self.stream().calls(),
            );
            if old(self).ahead() > 0 {
                crate::stream::lemma_run_follows(
                    old(self).stream().calls(),
                    Call::Seek(
                        SeekFrom::Current((0 - old(self).ahead()) as i64),
                        Some(old(self).window_start() as u64),
                    ),
                    Kind::Write,
                    old(self).buffered().filled > 0,
                    self.stream().calls(),
                );
            }
        }
        let n: usize = dumped?;
        self.pos = self.pos + n as u64;
        self.n = n;
        proof {
            let start: nat = old(self).window_start() as nat;
            let valid = old(self).buffered().valid();
            crate::model::lemma_write_at_mirrors(old(self).stream().bytes(), start, valid);
            crate::model::lemma_write_at_mirrored(self.stream().bytes(), start, valid);
        }
        Ok(())
    }

    /// Gives up the window: clears the buffer, after writing it to the stream if
    /// `dump` says so, so that the window is empty and starts where the stream's
    /// cursor stands, at the old window's end.
    fn leave_window(&mut self, dump: bool) -> (r: Result<(), Error<T::Error>>)
        requires
            old(self).wf(),
            old(self).buffered().dirty ==> dump,
        ensures
            final(self).inv(),
            final(self).stream().calls().len() >= old(self).stream().calls().len(),
            r matches Err(e) ==> Self::keeps_window(*old(self), *final(self))
                && Self::stream_failed(*old(self), e is IncompleteWrite, *final(self)),
            r matches Err(e) && e is IncompleteWrite ==> Self::dumps(
                *old(self),
                final(self).stream().calls(),
            ),
            !dump ==> r is Ok,
            r is Ok ==> {
                &&& final(self).wf()
                &&& final(self).buffered() == old(self).buffered().cleared()
                &&& final(self).stream().bytes() == old(self)@.bytes
                &&& final(self)@.bytes == old(self)@.bytes
                &&& final(self).stream().cursor() == old(self).window_end()
                &&& final(self).window_start() == old(self).window_end()
                &&& final(self).ahead() == 0
                &&& !dump ==> final(self).stream() == old(self).stream()
                &&& Self::leaves(*old(self), dump, final(self).stream().calls())
            },
            r matches Err(e) ==> e is Io || e is IncompleteWrite && old(self).buffered().filled > 0,
    {
        if dump {
            self.flush_buffer()?;
        } else {
            proof {
                crate::model::lemma_write_at_mirrored(
                    self.stream().bytes(),
                    self.window_start() as nat,
                    self.buffered().valid(),
                );
            }
        }
        self.buffer.clear();
        self.n = 0;
        Ok(())
    }

    /// A flush took the adapter from `pre` to `post`: the stream holds the contents,
    /// the buffer is empty, and stream and adapter stand at the end of the old
    /// window. The stream has seen the buffer written out and then its own flush.
    pub open spec fn flush_ok(pre: Self, post: Self) -> bool {
        &&& post.wf()
        &&& post@ == (LogicalView { bytes: pre@.bytes, position: pre.window_end() as nat })
        &&& post.stream().bytes() == pre@.bytes
        &&& post.stream().cursor() == pre.window_end()
        &&& post.buffered() == pre.buffered().cleared()
        &&& post.window_start() == pre.window_end()
        &&& post.ahead() == 0
        &&& Self::leaves_then(pre, true, Call::Flush(true), post.stream().calls())
    }

    /// A flush failed and left the adapter in `post`: the failure is an answer of
    /// the stream; the window is kept or given up; and where a write of the stream
    /// took nothing (`incomplete`), the stream has seen the seek back and the
    /// writes of a writing-out.
    pub open spec fn flush_failed(pre: Self, incomplete: bool, post: Self) -> bool {
        &&& Self::keeps_window(pre, post) || Self::left_window(pre, post)
        &&& Self::stream_failed(pre, incomplete, post)
        &&& incomplete ==> Self::dumps(pre, post.stream().calls())
    }

    /// Writes the valid bytes of the buffer to the stream, clears the buffer and
    /// flushes the stream.
    ///
    /// The contents stay as they are. The position moves to the end of the window:
    /// bytes of the buffer that were not read yet are skipped.
    pub fn flush(&mut self) -> (r: Result<(), Error<T::Error>>)
        requires
            old(self).wf(),
        ensures
            final(self).inv(),
            final(self).buffered().capacity() == old(self).buffered().capacity(),
            r is Ok ==> Self::flush_ok(*old(self), *final(self)),
            r matches Err(e) ==> Self::flush_failed(
                *old(self),
                e is IncompleteWrite,
                *final(self),
            ),
            r matches Err(e) ==> e is Io || e is IncompleteWrite && old(self).buffered().filled > 0,
    {
        self.leave_window(true)?;
        let ghost left = self.stream().calls();
        let flushed = self.inner.flush();
        proof {
            crate::stream::lemma_pushed(left, Call::Flush(flushed is Ok));
        }
        match flushed {
            Ok(()) => Ok(()),
            Err(e) => Err(Error::Io(e)),
        }
    }

    /// Gives up what the buffer holds, unwritten data too, and seeks in the
    /// stream to `offset`, which becomes the position.
    ///
    /// This asks for no agreement between adapter and stream, and where it succeeds
    /// it makes one: it is the way on after a failure of the stream.
    pub fn reset(&mut self, offset: u64) -> (r: Result<u64, Error<T::Error>>)
        requires
            old(self).inv(),
        ensures
            final(self).inv(),
            final(self).buffered() == old(self).buffered().cleared(),
            final(self).ahead() == 0,
            final(self).stream().calls() == old(self).stream().calls().push(
                Call::Seek(SeekFrom::Start(offset), crate::stream::offset(r)),
            ),
            r matches Ok(p) ==> {
                &&& p == offset
                &&& final(self).wf()
                &&& final(self).stream().bytes() == old(self).stream().bytes()
                &&& final(self).stream().cursor() == offset
                &&& final(self)@ == (LogicalView {
                    bytes: old(self).stream().bytes(),
                    position: offset as nat,
                })
                &&& final(self).window_start() == offset
            },
            r matches Err(e) ==> e is Io,
    {
        self.buffer.clear();
        self.n = 0;
        match self.inner.seek(SeekFrom::Start(offset)) {
            Ok(p) => {
                self.pos = p;
                Ok(p)
            },
            Err(e) => Err(Error::Io(e)),
        }
    }

    /// Flushes if the buffer holds unwritten data, and does nothing otherwise.
    ///
    /// This is what has to happen before the adapter is given up, so that no write
    /// is lost.
    pub fn flush_if_dirty(&mut self) -> (r: Result<(), Error<T::Error>>)
        requires
            old(self).wf(),
        ensures
            final(self).inv(),
            final(self).buffered().capacity() == old(self).buffered().capacity(),
            !old(self).buffered().dirty ==> r is Ok && *final(self) == *old(self),
            old(self).buffered().dirty && r is Ok ==> Self::flush_ok(*old(self), *final(self)),
            r matches Err(e) ==> Self::flush_failed(
                *old(self),
                e is IncompleteWrite,
                *final(self),
            ),
            r matches Err(e) ==> e is Io || e is IncompleteWrite && old(self).buffered().filled > 0,
    {
        if self.buffer.is_dirty() {
            self.flush()
        } else {
            Ok(())
        }
    }
}

/// Writing.
impl<T: Stream> BufReaderWriter<T> {
    /// A write of `src` took its first `n` bytes and the adapter from `pre` to
    /// `post`: the bytes stand in the contents at the position, which has moved to
    /// their end.
    pub open spec fn write_ok(pre: Self, src: Seq<u8>, n: nat, post: Self) -> bool {
        &&& post.wf()
        &&& n <= src.len()
        &&& post@ == (LogicalView {
            bytes: crate::model::write_at(pre@.bytes, pre@.position, src.subrange(0, n as int)),
            position: pre@.position + n,
        })
        &&& Self::write_step(pre, pre.buffered().write_command(src.len()), src, n, post)
    }

    /// Where a failure of the stream leaves the adapter in a write of `src`. A
    /// write that had to go through the buffer in two parts has put the first part
    /// in and failed to write the buffer out. A write past the buffer has failed
    /// to write the buffer out before, failed to bring the stream to the position,
    /// or failed itself.
    pub open spec fn write_failed(pre: Self, src: Seq<u8>, post: Self) -> bool {
        match pre.buffered().write_command(src.len()) {
            WriteAllCommand::Write => false,
            WriteAllCommand::WriteDumpWrite(split) => {
                &&& post.buffered() == pre.buffered().after_write(src.subrange(0, split as int))
                &&& post.window_start() == pre.window_start()
                &&& post.ahead() == pre.ahead() || post.ahead() == 0
            },
            WriteAllCommand::DumpWriteDirect | WriteAllCommand::WriteDirect => {
                ||| Self::keeps_window(pre, post)
                ||| Self::left_window(pre, post)
                ||| Self::at_position(pre, post)
            },
        }
    }

    /// What a successful write adds to its effect on contents and position: how
    /// stream, buffer and window stand after the command was carried out, and what
    /// the stream has seen. A write past the buffer hands the whole request to the
    /// stream, in one call.
    pub open spec fn write_step(
        pre: Self,
        command: WriteAllCommand,
        src: Seq<u8>,
        n: nat,
        post: Self,
    ) -> bool {
        match command {
            WriteAllCommand::Write => {
                &&& n == src.len()
                &&& post.stream() == pre.stream()
                &&& post.buffered() == pre.buffered().after_write(src)
                &&& post.window_start() == pre.window_start()
                &&& post.ahead() == pre.ahead()
            },
            WriteAllCommand::WriteDumpWrite(split) => {
                &&& n == src.len()
                &&& post.stream().bytes() == crate::model::write_at(
                    pre@.bytes,
                    pre@.position,
                    src.subrange(0, split as int),
                )
                &&& post.stream().cursor() == pre@.position + split
                &&& post.window_start() == pre@.position + split
                &&& post.ahead() == 0
                &&& post.buffered() == pre.buffered().after_write(
                    src.subrange(0, split as int),
                ).cleared().after_write(src.subrange(split as int, src.len() as int))
                &&& Self::wrote_out(pre, true, post.stream().calls())
            },
            WriteAllCommand::DumpWriteDirect | WriteAllCommand::WriteDirect => {
                &&& post.stream().bytes() == post@.bytes
                &&& post.stream().cursor() == pre@.position + n
                &&& post.window_start() == pre@.position + n
                &&& post.ahead() == 0
                &&& post.buffered() == pre.buffered().cleared()
                &&& Self::called(pre, post)
                &&& post.stream().calls().len() > 0
                &&& post.stream().calls().last() == Call::Write(src, Some(n))
                &&& Self::aims(
                    pre,
                    command is DumpWriteDirect,
                    post.stream().calls().drop_last(),
                )
            },
        }
    }

    /// Writes some bytes from the front of `buf` at the position and moves the
    /// position past them.
    ///
    /// A request that fits behind the buffer's cursor is copied into the buffer and
    /// the stream is not touched. One that does not fit but is smaller than the
    /// capacity fills the buffer up, has it written to the stream and cleared, and
    /// puts the rest into the empty buffer. These two always take the whole request.
    /// A request of at least the capacity goes to the stream in one write, after
    /// unwritten data and, where unread bytes are left in the buffer, after a seek
    /// of the stream to the position; the stream may take only a part of it.
    pub fn write(&mut self, buf: &[u8]) -> (r: Result<usize, Error<T::Error>>)
        requires
            old(self).wf(),
            old(self)@.position + buf@.len() <= u64::MAX,
        ensures
            final(self).inv(),
            final(self).buffered().capacity() == old(self).buffered().capacity(),
            r matches Ok(n) ==> Self::write_ok(*old(self), buf@, n as nat, *final(self)),
            old(self).buffered().write_command(buf@.len()) is Write ==> r is Ok,
            r matches Err(e) ==> Self::write_failed(*old(self), buf@, *final(self))
                && Self::stream_failed(*old(self), e is IncompleteWrite, *final(self)),
            r matches Err(e) && e is IncompleteWrite ==> Self::wrote_out(
                *old(self),
                true,
                final(self).stream().calls(),
            ),
            r matches Err(e) ==> {
                ||| e is Io
                ||| e is IncompleteWrite && !(old(self).buffered().write_command(buf@.len())
                    is WriteDirect)
            },
    {
        match self.buffer.get_write_exact_command(buf) {
            WriteAllCommand::Write => {
                let n: usize = self.put(buf);
                assert(buf@.subrange(0, n as int) =~= buf@);
                Ok(n)
            },
            WriteAllCommand::WriteDumpWrite(n) => {
                let (first, second) = buf.split_at(n);
                let _: usize = self.put(first);
                self.leave_window(true)?;
                let _: usize = self.put(second);
                proof {
                    crate::model::lemma_write_at_append(
                        old(self)@.bytes,
                        old(self)@.position,
                        first@,
                        second@,
                    );
                    assert(first@ + second@ =~= buf@);
                    assert(buf@.subrange(0, buf@.len() as int) =~= buf@);
                }
                Ok(buf.len())
            },
            WriteAllCommand::DumpWriteDirect => self.write_past(buf, true),
            WriteAllCommand::WriteDirect => self.write_past(buf, false),
        }
    }

    /// Writes `buf` to the stream directly: gives up the window, brings the stream
    /// to the position if it does not stand there, and hands it the request.
    fn write_past(&mut self, buf: &[u8], dump: bool) -> (r: Result<usize, Error<T::Error>>)
        requires
            old(self).wf(),
            old(self).buffered().dirty ==> dump,
            dump ==> old(self).buffered().filled > 0,
        ensures
            final(self).inv(),
            final(self).buffered().capacity() == old(self).buffered().capacity(),
            r matches Ok(n) ==> {
                &&& final(self).wf()
                &&& n <= buf@.len()
                &&& final(self)@ == (LogicalView {
                    bytes: crate::model::write_at(
                        old(self)@.bytes,
                        old(self)@.position,
                        buf@.subrange(0, n as int),
                    ),
                    position: old(self)@.position + n as nat,
                })
                &&& final(self).stream().bytes() == final(self)@.bytes
                &&& final(self).stream().cursor() == old(self)@.position + n
                &&& final(self).window_start() == old(self)@.position + n
                &&& final(self).ahead() == 0
                &&& final(self).buffered() == old(self).buffered().cleared()
                &&& Self::called(*old(self), *final(self))
                &&& final(self).stream().calls().len() > 0
                &&& final(self).stream().calls().last() == Call::Write(buf@, Some(n as nat))
                &&& Self::aims(*old(self), dump, final(self).stream().calls().drop_last())
            },
            r matches Err(e) ==> {
                &&& Self::stream_failed(*old(self), e is IncompleteWrite, *final(self))
                &&& {
                    ||| Self::keeps_window(*old(self), *final(self))
                    ||| Self::left_window(*old(self), *final(self))
                    ||| Self::at_position(*old(self), *final(self))
                }
            },
            r matches Err(e) && e is IncompleteWrite ==> Self::wrote_out(
                *old(self),
                true,
                final(self).stream().calls(),
            ),
            r matches Err(e) ==> e is Io || e is IncompleteWrite && dump,
    {
        let position: u64 = self.position();
        let unread: usize = self.buffer.num_readable_bytes_left();
        self.leave_window(dump)?;
        if unread != 0 {
            let ghost left = self.stream().calls();
            let sought = self.seek_inner(SeekFrom::Start(position));
            proof {
                crate::stream::lemma_pushed(
                    left,
                    Call::Seek(SeekFrom::Start(position), crate::stream::offset(sought)),
                );
            }
            let _: u64 = sought?;
        }
        let ghost aimed = self.stream().calls();
        let r = self.write_inner(buf);
        proof {
            crate::stream::lemma_pushed(aimed, Call::Write(buf@, crate::stream::count(r)));
        }
        r
    }

    /// Copies `src`, which fits behind the buffer's cursor, into the buffer.
    fn put(&mut self, src: &[u8]) -> (n: usize)
        requires
            old(self).wf(),
            src@.len() <= old(self).buffered().writable(),
            old(self)@.position + src@.len() <= u64::MAX,
        ensures
            final(self).wf(),
            n == src@.len(),
            final(self).stream() == old(self).stream(),
            final(self).buffered() == old(self).buffered().after_write(src@),
            final(self).window_start() == old(self).window_start(),
            final(self).ahead() == old(self).ahead(),
            final(self)@ == (LogicalView {
                bytes: crate::model::write_at(old(self)@.bytes, old(self)@.position, src@),
                position: old(self)@.position + src@.len(),
            }),
    {
        let n: usize = self.buffer.write(src);
        proof {
            assert(src@.subrange(0, n as int) =~= src@);
            crate::model::lemma_write_at_patch(
                self.stream().bytes(),
                self.window_start() as nat,
                old(self).buffered().valid(),
                old(self).buffered().cursor,
                src@,
                self.buffered().valid(),
            );
        }
        n
    }

    /// Writes to the stream, whose cursor marks the start of an empty window, and
    /// moves the start past what the stream took.
    fn write_inner(&mut self, buf: &[u8]) -> (r: Result<usize, Error<T::Error>>)
        requires
            old(self).wf(),
            old(self).buffered().filled == 0,
            old(self).ahead() == 0,
        ensures
            final(self).inv(),
            final(self).buffered() == old(self).buffered(),
            final(self).ahead() == 0,
            final(self).stream().calls() == old(self).stream().calls().push(
                Call::Write(buf@, crate::stream::count(r)),
            ),
            r is Err ==> final(self).window_start() == old(self).window_start(),
            r matches Ok(n) ==> {
                &&& final(self).wf()
                &&& n <= buf@.len()
                &&& final(self).stream().bytes() == crate::model::write_at(
                    old(self).stream().bytes(),
                    old(self).stream().cursor() as nat,
                    buf@.subrange(0, n as int),
                )
                &&& final(self)@.bytes == final(self).stream().bytes()
                &&& final(self).stream().cursor() == old(self).stream().cursor() + n
                &&& final(self).window_start() == old(self).window_start() + n
            },
            r matches Err(e) ==> e is Io,
    {
        match self.inner.write(buf) {
            Ok(n) => {
                self.pos = self.pos + n as u64;
                Ok(n)
            },
            Err(e) => Err(Error::Io(e)),
        }
    }

    /// Writes all of `buf` at the position and moves the position past it.
    ///
    /// The request is handed on as one [`write`](Self::write). Where that goes to
    /// the stream directly and the stream takes only a part, the call fails with
    /// `IncompleteWrite`, and the adapter is left as that write left it.
    pub fn write_all(&mut self, buf: &[u8]) -> (r: Result<(), Error<T::Error>>)
        requires
            old(self).wf(),
            old(self)@.position + buf@.len() <= u64::MAX,
        ensures
            final(self).inv(),
            final(self).buffered().capacity() == old(self).buffered().capacity(),
            r is Ok ==> Self::write_ok(*old(self), buf@, buf@.len(), *final(self)),
            old(self).buffered().write_command(buf@.len()) is Write ==> r is Ok,
            r is Err ==> Self::called(*old(self), *final(self)),
            r matches Err(e) && e is Io ==> Self::write_failed(*old(self), buf@, *final(self))
                && Self::stream_failed(*old(self), false, *final(self)),
            r matches Err(e) && e is IncompleteWrite ==> {
                ||| Self::write_failed(*old(self), buf@, *final(self)) && Self::wrote_out(
                    *old(self),
                    true,
                    final(self).stream().calls(),
                ) && Self::stream_failed(*old(self), true, *final(self))
                ||| exists|n: nat|
                    n < buf@.len() && #[trigger] Self::write_ok(*old(self), buf@, n, *final(self))
            },
            r matches Err(e) ==> e is Io || e is IncompleteWrite,
    {
        let n: usize = self.write(buf)?;
        if n != buf.len() {
            proof {
                crate::stream::lemma_pushed(
                    self.stream().calls().drop_last(),
                    self.stream().calls().last(),
                );
                assert(Self::write_ok(*old(self), buf@, n as nat, *self));
            }
            return Err(Error::IncompleteWrite);
        }
        assert(buf@.subrange(0, n as int) =~= buf@);
        Ok(())
    }
}

/// Seeking.
impl<T: Stream> BufReaderWriter<T> {
    /// Whether a seek is settled by moving the buffer's cursor alone: its target
    /// lies among the valid bytes of the buffer. A relative seek by nothing always
    /// is, one to the very end of the window is not, and one from the end never is.
    pub open spec fn seeks_in_window(&self, seek_from: SeekFrom) -> bool {
        match seek_from {
            SeekFrom::Start(offset) => self.window_start() <= offset < self.window_end(),
            SeekFrom::End(_) => false,
            SeekFrom::Current(by) => {
                ||| by == 0
                ||| by < 0 && -by <= self.buffered().cursor
                ||| by > 0 && by < self.buffered().unread()
            },
        }
    }

    /// Whether a seek asks, relative to the position, for an offset before the
    /// start of the stream.
    pub open spec fn seeks_before_start(&self, seek_from: SeekFrom) -> bool {
        seek_from matches SeekFrom::Current(by) && self@.position + by < 0
    }

    /// A seek arrived at offset `p` and took the adapter from `pre` to `post`: `p` is
    /// the offset that was asked for and the new position, and the contents are as
    /// before.
    pub open spec fn seek_ok(pre: Self, seek_from: SeekFrom, p: u64, post: Self) -> bool {
        &&& post.wf()
        &&& p == seek_from.target(pre@.position as int, pre@.bytes.len() as int)
        &&& post@ == (LogicalView { bytes: pre@.bytes, position: p as nat })
        &&& Self::seek_step(pre, seek_from, p as nat, post)
    }

    /// The request that a seek out of the window hands to the stream: its own if it
    /// counts from the start or the end, the offset it arrives at if it goes back
    /// from the position, and what is left to go from the window's end if it goes
    /// forward.
    pub open spec fn seek_handed(pre: Self, seek_from: SeekFrom) -> SeekFrom {
        match seek_from {
            SeekFrom::Start(_) => seek_from,
            SeekFrom::End(_) => seek_from,
            SeekFrom::Current(by) => if by < 0 {
                SeekFrom::Start((pre@.position + by) as u64)
            } else {
                SeekFrom::Current((by - pre.buffered().unread()) as i64)
            },
        }
    }

    /// What a successful seek adds to its effect on contents and position: how
    /// stream, buffer and window stand afterwards, and what the stream has seen.
    pub open spec fn seek_step(pre: Self, seek_from: SeekFrom, target: nat, post: Self) -> bool {
        if pre.seeks_in_window(seek_from) {
            &&& post.stream() == pre.stream()
            &&& post.buffered() == (BufferView {
                cursor: (target - pre.window_start()) as nat,
                ..pre.buffered()
            })
            &&& post.window_start() == pre.window_start()
            &&& post.ahead() == pre.ahead()
        } else {
            &&& post.stream().bytes() == pre@.bytes
            &&& post.stream().cursor() == target
            &&& post.buffered() == pre.buffered().cleared()
            &&& post.window_start() == target
            &&& post.ahead() == 0
            &&& Self::leaves_then(
                pre,
                pre.buffered().dirty,
                Call::Seek(Self::seek_handed(pre, seek_from), Some(target as u64)),
                post.stream().calls(),
            )
        }
    }

    /// Moves the position to the offset that `seek_from` asks for, and returns it.
    ///
    /// A seek [in the window](Self::seeks_in_window) moves the buffer's cursor and
    /// does not touch the stream. Any other seek writes unwritten data to the
    /// stream, clears the buffer and seeks in the stream. A relative seek to
    /// [before the start](Self::seeks_before_start) is refused with `InvalidSeek`
    /// and changes nothing; whether any other target is acceptable is for the
    /// stream to say.
    pub fn seek(&mut self, seek_from: SeekFrom) -> (r: Result<u64, Error<T::Error>>)
        requires
            old(self).wf(),
        ensures
            final(self).inv(),
            final(self).buffered().capacity() == old(self).buffered().capacity(),
            r matches Ok(p) ==> Self::seek_ok(*old(self), seek_from, p, *final(self)),
            old(self).seeks_in_window(seek_from) ==> r is Ok,
            (r matches Err(e) && e is InvalidSeek) <==> old(self).seeks_before_start(seek_from),
            old(self).seeks_before_start(seek_from) ==> *final(self) == *old(self),
            r is Err ==> Self::keeps_window(*old(self), *final(self)) || Self::left_window(
                *old(self),
                *final(self),
            ),
            r matches Err(e) ==> e is InvalidSeek || Self::stream_failed(
                *old(self),
                e is IncompleteWrite,
                *final(self),
            ),
            r matches Err(e) && e is IncompleteWrite ==> Self::dumps(
                *old(self),
                final(self).stream().calls(),
            ),
            r matches Err(e) ==> {
                ||| e is Io
                ||| e is IncompleteWrite && old(self).buffered().dirty
                ||| e is InvalidSeek
            },
    {
        match seek_from {
            SeekFrom::Start(pos) => {
                let start: u64 = self.start_position_in_source();
                let end: u64 = start + self.buffer.num_valid_bytes() as u64;
                if start <= pos && pos < end {
                    // Only the cursor inside the buffer has to move.
                    self.buffer.set_position(pos - start);
                    Ok(self.position())
                } else {
                    self.seek_past(SeekFrom::Start(pos))
                }
            },
            SeekFrom::End(pos) => self.seek_past(SeekFrom::End(pos)),
            SeekFrom::Current(direction) => {
                if direction == 0 {
                    // A common way to ask for the position.
                    Ok(self.position())
                } else if direction < 0 {
                    let abs_d: u64 = if direction == i64::MIN {
                        0x8000_0000_0000_0000u64
                    } else {
                        (-direction) as u64
                    };
                    if abs_d > self.buffer.position() as u64 {
                        // The target lies before what the buffer holds.
                        if abs_d > self.position() {
                            return Err(Error::InvalidSeek);
                        }
                        let target: u64 = self.position() - abs_d;
                        self.seek_past(SeekFrom::Start(target))
                    } else {
                        self.buffer.set_position(self.buffer.position() as u64 - abs_d);
                        Ok(self.position())
                    }
                } else {
                    let amount: u64 = direction as u64;
                    let unread: u64 = self.buffer.num_readable_bytes_left() as u64;
                    if amount >= unread {
                        // The target lies behind what the buffer holds.
                        self.seek_past(SeekFrom::Current((amount - unread) as i64))
                    } else {
                        self.buffer.set_position(self.buffer.position() as u64 + amount);
                        Ok(self.position())
                    }
                }
            },
        }
    }

    /// Gives up the window, after writing out unwritten data, and seeks in the
    /// stream, whose cursor then stands at the old window's end.
    fn seek_past(&mut self, handed: SeekFrom) -> (r: Result<u64, Error<T::Error>>)
        requires
            old(self).wf(),
        ensures
            final(self).inv(),
            final(self).buffered().capacity() == old(self).buffered().capacity(),
            r matches Ok(p) ==> {
                &&& final(self).wf()
                &&& p == handed.target(old(self).window_end(), old(self)@.bytes.len() as int)
                &&& final(self)@ == (LogicalView { bytes: old(self)@.bytes, position: p as nat })
                &&& final(self).stream().bytes() == old(self)@.bytes
                &&& final(self).stream().cursor() == p
                &&& final(self).buffered() == old(self).buffered().cleared()
                &&& final(self).window_start() == p
                &&& final(self).ahead() == 0
                &&& Self::leaves_then(
                    *old(self),
                    old(self).buffered().dirty,
                    Call::Seek(handed, Some(p)),
                    final(self).stream().calls(),
                )
            },
            r matches Err(e) ==> {
                &&& Self::stream_failed(*old(self), e is IncompleteWrite, *final(self))
                &&& Self::keeps_window(*old(self), *final(self)) || Self::left_window(
                    *old(self),
                    *final(self),
                )
            },
            r matches Err(e) && e is IncompleteWrite ==> Self::dumps(
                *old(self),
                final(self).stream().calls(),
            ),
            r matches Err(e) ==> e is Io || e is IncompleteWrite && old(self).buffered().dirty,
    {
        let dirty: bool = self.buffer.is_dirty();
        self.leave_window(dirty)?;
        let ghost left = self.stream().calls();
        let r = self.seek_inner(handed);
        proof {
            crate::stream::lemma_pushed(left, Call::Seek(handed, crate::stream::offset(r)));
        }
        r
    }

    /// Seeks in the stream, whose cursor marks the start of an empty window, and
    /// takes the offset it reports as the new start.
    fn seek_inner(&mut self, seek_from: SeekFrom) -> (r: Result<u64, Error<T::Error>>)
        requires
            old(self).wf(),
            old(self).buffered().filled == 0,
            old(self).ahead() == 0,
        ensures
            final(self).inv(),
            final(self).buffered() == old(self).buffered(),
            final(self).ahead() == 0,
            final(self).stream().calls() == old(self).stream().calls().push(
                Call::Seek(seek_from, crate::stream::offset(r)),
            ),
            r is Err ==> final(self).window_start() == old(self).window_start(),
            r matches Ok(p) ==> {
                &&& final(self).wf()
                &&& p == seek_from.target(
                    old(self).stream().cursor() as int,
                    old(self).stream().bytes().len() as int,
                )
                &&& final(self).stream().bytes() == old(self).stream().bytes()
                &&& final(self)@.bytes == old(self).stream().bytes()
                &&& final(self).stream().cursor() == p
                &&& final(self).window_start() == p
            },
            r matches Err(e) ==> e is Io,
    {
        match self.inner.seek(seek_from) {
            Ok(p) => {
                self.pos = p;
                Ok(p)
            },
            Err(e) => Err(Error::Io(e)),
        }
    }
}

/// What reading does.
impl<T: Stream> BufReaderWriter<T> {
    /// A read of at most `want` bytes returned the `n` bytes `got` and took the
    /// adapter from `pre` to `post`: the bytes are those at the position, which has
    /// moved past them, and the contents are as before.
    pub open spec fn read_ok(pre: Self, want: nat, n: nat, got: Seq<u8>, post: Self) -> bool {
        &&& post.wf()
        &&& crate::model::reads(pre@.bytes, pre@.position, want, n, got)
        &&& post@ == (LogicalView { bytes: pre@.bytes, position: pre@.position + n })
        &&& Self::read_step(pre, pre.buffered().read_command(want), want, n, post)
    }

    /// What a successful read of at most `want` bytes adds to its effect on
    /// contents and position: how stream, buffer and window stand after the command
    /// was carried out, and what the stream has seen. A refill asks the stream for
    /// as many bytes as the buffer holds, and the read hands out as many of those it
    /// got as were asked for; a read past the buffer hands the request on.
    pub open spec fn read_step(
        pre: Self,
        command: ReadCommand,
        want: nat,
        n: nat,
        post: Self,
    ) -> bool {
        match command {
            ReadCommand::Read(served) => {
                &&& n == served
                &&& post.stream() == pre.stream()
                &&& post.buffered() == pre.buffered().after_read(n)
                &&& post.window_start() == pre.window_start()
                &&& post.ahead() == pre.ahead()
            },
            ReadCommand::FillRead { dump_before_fill } => {
                &&& post.stream().bytes() == pre@.bytes
                &&& post.stream().cursor() == post.window_end()
                &&& post.window_start() == pre@.position
                &&& post.ahead() == post.buffered().filled
                &&& post.buffered().cursor == n
                &&& n == if want <= post.buffered().filled {
                    want
                } else {
                    post.buffered().filled
                }
                &&& !post.buffered().dirty
                &&& post.buffered().data.len() == pre.buffered().data.len()
                &&& Self::leaves_then(
                    pre,
                    dump_before_fill,
                    Call::Read(pre.buffered().capacity(), Some(post.buffered().filled)),
                    post.stream().calls(),
                )
            },
            ReadCommand::ReadDirect { dump_before } => {
                &&& post.stream().bytes() == pre@.bytes
                &&& post.stream().cursor() == pre@.position + n
                &&& post.window_start() == pre@.position + n
                &&& post.ahead() == 0
                &&& post.buffered() == pre.buffered().cleared()
                &&& Self::leaves_then(
                    pre,
                    dump_before,
                    Call::Read(want, Some(n)),
                    post.stream().calls(),
                )
            },
        }
    }

    /// An exact read returned `got` and took the adapter from `pre` to `post`: that
    /// many bytes were left, `got` holds those at the position, which has moved past
    /// them, and the contents are as before.
    pub open spec fn read_exact_ok(pre: Self, got: Seq<u8>, post: Self) -> bool {
        &&& post.wf()
        &&& got.len() <= crate::model::available(pre@.bytes.len(), pre@.position)
        &&& got.len() > 0 ==> got == pre@.bytes.subrange(
            pre@.position as int,
            (pre@.position + got.len()) as int,
        )
        &&& post@ == (LogicalView { bytes: pre@.bytes, position: pre@.position + got.len() })
        &&& Self::read_exact_step(
            pre,
            pre.buffered().read_exact_command(got.len()),
            got.len(),
            post,
        )
    }

    /// An exact read for `want` bytes met the end and took the adapter from `pre` to
    /// `post`: fewer bytes than that were left, the position stands at the end of
    /// the contents, or where it stood if that was past the end, and the contents
    /// are as before. The stream holds them all, and the buffer is empty.
    pub open spec fn read_exact_eof(pre: Self, want: nat, post: Self) -> bool {
        &&& post.wf()
        &&& want > crate::model::available(pre@.bytes.len(), pre@.position)
        &&& post@ == (LogicalView {
            bytes: pre@.bytes,
            position: if pre@.position >= pre@.bytes.len() {
                pre@.position
            } else {
                pre@.bytes.len()
            },
        })
        &&& post.stream().bytes() == pre@.bytes
        &&& post.stream().cursor() == post@.position
        &&& post.buffered().cursor == 0
        &&& post.buffered().filled == 0
        &&& !post.buffered().dirty
        &&& post.buffered().data.len() == pre.buffered().data.len()
        &&& post.ahead() == 0
        &&& Self::leaves_then_reads(
            pre,
            pre.buffered().dirty,
            true,
            want,
            true,
            post.stream().calls(),
        )
    }

    /// What a successful exact read adds to its effect on contents and position: how
    /// stream, buffer and window stand after the command was carried out, and what
    /// the stream has seen: reads, no more of them than bytes were missing. Where
    /// one refill was enough, the window starts where the bytes were missing.
    pub open spec fn read_exact_step(
        pre: Self,
        command: ReadExactCommand,
        len: nat,
        post: Self,
    ) -> bool {
        match command {
            ReadExactCommand::Read => {
                &&& post.stream() == pre.stream()
                &&& post.buffered() == pre.buffered().after_read(len)
                &&& post.window_start() == pre.window_start()
                &&& post.ahead() == pre.ahead()
            },
            ReadExactCommand::ReadFillRead { split, dump_before_fill } => {
                &&& post.stream().bytes() == pre@.bytes
                &&& post.stream().cursor() == post.window_end()
                &&& post.window_start() >= pre@.position + split
                &&& post.ahead() == post.buffered().filled
                &&& !post.buffered().dirty
                &&& post.buffered().data.len() == pre.buffered().data.len()
                &&& Self::leaves_then_reads(
                    pre,
                    dump_before_fill,
                    true,
                    (len - split) as nat,
                    post.window_start() == pre@.position + split,
                    post.stream().calls(),
                )
            },
            ReadExactCommand::FillRead { dump_before_fill } => {
                &&& post.stream().bytes() == pre@.bytes
                &&& post.stream().cursor() == post.window_end()
                &&& post.window_start() >= pre@.position
                &&& post.ahead() == post.buffered().filled
                &&& !post.buffered().dirty
                &&& post.buffered().data.len() == pre.buffered().data.len()
                &&& Self::leaves_then_reads(
                    pre,
                    dump_before_fill,
                    true,
                    len,
                    post.window_start() == pre@.position,
                    post.stream().calls(),
                )
            },
            ReadExactCommand::ReadDirect { dump_before } | ReadExactCommand::ReadReadDirect {
                dump_before,
                ..
            } => {
                &&& post.stream().bytes() == pre@.bytes
                &&& post.stream().cursor() == pre@.position + len
                &&& post.window_start() == pre@.position + len
                &&& post.ahead() == 0
                &&& post.buffered() == pre.buffered().cleared()
                &&& Self::leaves_then_reads(
                    pre,
                    dump_before,
                    len > pre.buffered().unread(),
                    (len - pre.buffered().unread()) as nat,
                    true,
                    post.stream().calls(),
                )
            },
        }
    }

    /// The first `done` bytes of `buf` are the bytes of the stream that precede
    /// `position`.
    spec fn served(bytes: Seq<u8>, position: nat, buf: Seq<u8>, done: nat) -> bool {
        &&& done <= buf.len()
        &&& done <= position
        &&& done > 0 ==> position <= bytes.len() && buf.subrange(0, done as int)
            == bytes.subrange(position - done, position as int)
    }

    /// An exact read for `want` more bytes found the stream exhausted: fewer bytes
    /// than that were left, and the adapter stands at the end of the stream, or
    /// where it stood if that was past the end.
    spec fn starved(pre: Self, want: nat, post: Self) -> bool {
        &&& post.wf()
        &&& crate::stream::then_run(
            pre.stream().calls(),
            Seq::empty(),
            Kind::Read,
            true,
            post.stream().calls(),
        )
        &&& pre.stream().calls().len() < post.stream().calls().len() <= pre.stream().calls().len()
            + want
        &&& post.buffered().cursor == 0
        &&& post.buffered().filled == 0
        &&& !post.buffered().dirty
        &&& post.ahead() == 0
        &&& post.stream().bytes() == pre.stream().bytes()
        &&& post@.bytes == pre.stream().bytes()
        &&& want > crate::model::available(pre.stream().bytes().len(), pre@.position)
        &&& post@.position == if pre@.position >= pre.stream().bytes().len() {
            pre@.position
        } else {
            pre.stream().bytes().len()
        }
    }

    /// What the outcome of filling the rest of a destination says of the whole
    /// request, of which `split` bytes had been served before.
    proof fn lemma_exact_done(bytes: Seq<u8>, position: nat, split: nat, buf: Seq<u8>)
        requires
            split <= buf.len(),
            split > 0 ==> position + split <= bytes.len(),
        ensures
            Self::served(bytes, position + buf.len(), buf, buf.len()) ==> {
                &&& buf.len() <= crate::model::available(bytes.len(), position)
                &&& buf.len() > 0 ==> buf == bytes.subrange(
                    position as int,
                    (position + buf.len()) as int,
                )
            },
            (buf.len() - split) as nat > crate::model::available(bytes.len(), position + split)
                ==> buf.len() > crate::model::available(bytes.len(), position),
    {
    }

    /// Copies out of the buffer into the front of `buf` what is left to read there
    /// and fits.
    fn serve(&mut self, buf: &mut [u8]) -> (n: usize)
        requires
            old(self).wf(),
        ensures
            final(self).wf(),
            final(buf)@.len() == old(buf)@.len(),
            n == if old(buf)@.len() <= old(self).buffered().unread() {
                old(buf)@.len()
            } else {
                old(self).buffered().unread()
            },
            final(self).stream() == old(self).stream(),
            final(self).buffered() == old(self).buffered().after_read(n as nat),
            final(self).window_start() == old(self).window_start(),
            final(self).ahead() == old(self).ahead(),
            final(self)@ == (LogicalView {
                bytes: old(self)@.bytes,
                position: old(self)@.position + n as nat,
            }),
            final(buf)@ == old(self).buffered().data.subrange(
                old(self).buffered().cursor as int,
                old(self).buffered().cursor + n,
            ) + old(buf)@.subrange(n as int, old(buf)@.len() as int),
            n > 0 ==> {
                &&& old(self)@.position + n <= old(self)@.bytes.len()
                &&& final(buf)@.subrange(0, n as int) == old(self)@.bytes.subrange(
                    old(self)@.position as int,
                    old(self)@.position + n,
                )
            },
    {
        let n: usize = self.buffer.read(buf);
        n
    }
}

/// Reading.
impl<T: ReadStream> BufReaderWriter<T> {
    /// Reads some bytes at the position into the front of `buf` and moves the
    /// position past them. Fewer bytes than `buf` has room for may be read; none are
    /// read only if `buf` is empty or the position is at or past the end.
    ///
    /// While the buffer holds unread bytes the read is served from them and the
    /// stream is not touched. Otherwise unwritten data is first written to the
    /// stream; then a request smaller than the capacity refills the buffer with one
    /// read of the stream and is served from it, and a larger one is read from the
    /// stream directly, which leaves the buffer empty.
    pub fn read(&mut self, buf: &mut [u8]) -> (r: Result<usize, Error<T::Error>>)
        requires
            old(self).wf(),
        ensures
            final(self).inv(),
            final(self).buffered().capacity() == old(self).buffered().capacity(),
            final(buf)@.len() == old(buf)@.len(),
            r matches Ok(n) ==> Self::read_ok(
                *old(self),
                old(buf)@.len(),
                n as nat,
                final(buf)@.subrange(0, n as int),
                *final(self),
            ),
            old(self).buffered().read_command(old(buf)@.len()) is Read ==> r is Ok && final(buf)@
                == old(self).buffered().data.subrange(
                old(self).buffered().cursor as int,
                old(self).buffered().cursor + r->Ok_0,
            ) + old(buf)@.subrange(r->Ok_0 as int, old(buf)@.len() as int),
            r is Err ==> {
                &&& Self::keeps_window(*old(self), *final(self)) || Self::left_window(
                    *old(self),
                    *final(self),
                )
                &&& final(self)@.position == old(self)@.position
            },
            r matches Err(e) ==> Self::stream_failed(
                *old(self),
                e is IncompleteWrite,
                *final(self),
            ),
            r matches Err(e) && e is IncompleteWrite ==> Self::dumps(
                *old(self),
                final(self).stream().calls(),
            ),
            r matches Err(e) ==> e is Io || e is IncompleteWrite && old(self).buffered().dirty,
    {
        match self.buffer.get_read_command(&*buf) {
            ReadCommand::Read(_) => {
                let n: usize = self.serve(buf);
                Ok(n)
            },
            ReadCommand::FillRead { dump_before_fill } => {
                self.leave_window(dump_before_fill)?;
                let ghost left = self.stream().calls();
                let refilled = self.refill();
                proof {
                    crate::stream::lemma_pushed(
                        left,
                        Call::Read(self.buffered().capacity(), crate::stream::count(refilled)),
                    );
                }
                let _: usize = refilled?;
                let n: usize = self.serve(buf);
                Ok(n)
            },
            ReadCommand::ReadDirect { dump_before } => {
                self.leave_window(dump_before)?;
                let ghost left = self.stream().calls();
                let r = self.read_inner(buf);
                proof {
                    crate::stream::lemma_pushed(
                        left,
                        Call::Read(buf@.len(), crate::stream::count(r)),
                    );
                }
                r
            },
        }
    }

    /// Refills the buffer, which is clean and has nothing left to read, with one
    /// read of the stream: the window then starts at the position.
    fn refill(&mut self) -> (r: Result<usize, Error<T::Error>>)
        requires
            old(self).wf(),
            !old(self).buffered().dirty,
            old(self).buffered().unread() == 0,
        ensures
            final(self).inv(),
            final(self).buffered().capacity() == old(self).buffered().capacity(),
            final(self).stream().calls() == old(self).stream().calls().push(
                Call::Read(old(self).buffered().capacity(), crate::stream::count(r)),
            ),
            r matches Ok(got) ==> {
                &&& final(self).wf()
                &&& final(self)@ == old(self)@
                &&& final(self).stream().bytes() == old(self).stream().bytes()
                &&& final(self)@.bytes == old(self).stream().bytes()
                &&& final(self).stream().cursor() == final(self).window_end()
                &&& final(self).window_start() == old(self)@.position
                &&& final(self).ahead() == got
                &&& final(self).buffered().cursor == 0
                &&& final(self).buffered().filled == got
                &&& !final(self).buffered().dirty
                &&& got == 0 ==> crate::model::available(
                    old(self)@.bytes.len(),
                    old(self)@.position,
                ) == 0 || old(self).buffered().capacity() == 0
            },
            r matches Err(e) ==> {
                &&& e is Io
                &&& final(self).buffered().cursor == old(self).buffered().cursor
                &&& final(self).buffered().filled == old(self).buffered().filled
                &&& !final(self).buffered().dirty
                &&& final(self).window_start() == old(self).window_start()
                &&& final(self).ahead() == old(self).ahead()
            },
    {
        proof {
            crate::model::lemma_write_at_mirrored(
                self.stream().bytes(),
                self.window_start() as nat,
                self.buffered().valid(),
            );
        }
        let got: usize = match self.buffer.fill_from(&mut self.inner) {
            Ok(got) => got,
            Err(e) => {
                return Err(Error::Io(e));
            },
        };
        self.pos = self.pos + got as u64;
        self.n = got;
        proof {
            crate::model::lemma_write_at_mirrored(
                self.stream().bytes(),
                self.window_start() as nat,
                self.buffered().valid(),
            );
        }
        Ok(got)
    }

    /// Reads from the stream, whose cursor marks the start of an empty window, and
    /// moves the start past what the stream gave.
    fn read_inner(&mut self, buf: &mut [u8]) -> (r: Result<usize, Error<T::Error>>)
        requires
            old(self).wf(),
            old(self).buffered().filled == 0,
            old(self).ahead() == 0,
        ensures
            final(self).inv(),
            final(buf)@.len() == old(buf)@.len(),
            final(self).buffered() == old(self).buffered(),
            final(self).ahead() == 0,
            final(self).stream().calls() == old(self).stream().calls().push(
                Call::Read(old(buf)@.len(), crate::stream::count(r)),
            ),
            r is Err ==> final(self).window_start() == old(self).window_start(),
            r matches Ok(n) ==> {
                &&& final(self).wf()
                &&& crate::model::reads(
                    old(self).stream().bytes(),
                    old(self)@.position,
                    old(buf)@.len(),
                    n as nat,
                    final(buf)@.subrange(0, n as int),
                )
                &&& final(self).stream().bytes() == old(self).stream().bytes()
                &&& final(self)@.bytes == old(self).stream().bytes()
                &&& final(self).stream().cursor() == old(self)@.position + n
                &&& final(self).window_start() == old(self)@.position + n
            },
            r matches Err(e) ==> e is Io,
    {
        match self.inner.read(buf) {
            Ok(n) => {
                self.pos = self.pos + n as u64;
                Ok(n)
            },
            Err(e) => Err(Error::Io(e)),
        }
    }

    /// Fills `buf` with the bytes at the position and moves the position past them,
    /// or fails with `UnexpectedEof` if fewer bytes are left than `buf` has room
    /// for; the position then stands at the end of the contents, unless it stood
    /// past it already.
    ///
    /// Bytes that the buffer holds are taken from it; if they are all that is asked
    /// for, the stream is not touched. For the rest unwritten data is first written
    /// to the stream; then a request smaller than the capacity refills the buffer,
    /// as often as the stream's reads fall short, and is served from it, and a
    /// larger one is read from the stream directly, which leaves the buffer empty.
    #[verifier::rlimit(80)]
    pub fn read_exact(&mut self, buf: &mut [u8]) -> (r: Result<(), Error<T::Error>>)
        requires
            old(self).wf(),
        ensures
            final(self).inv(),
            final(self).buffered().capacity() == old(self).buffered().capacity(),
            final(buf)@.len() == old(buf)@.len(),
            r is Ok ==> Self::read_exact_ok(*old(self), final(buf)@, *final(self)),
            r matches Err(e) && e is UnexpectedEof ==> Self::read_exact_eof(
                *old(self),
                old(buf)@.len(),
                *final(self),
            ),
            old(self).buffered().read_exact_command(old(buf)@.len()) is Read ==> r is Ok,
            r is Err ==> Self::called(*old(self), *final(self)),
            r matches Err(e) ==> e is UnexpectedEof || Self::stream_failed(
                *old(self),
                e is IncompleteWrite,
                *final(self),
            ),
            r matches Err(e) && !(e is UnexpectedEof) ==> {
                &&& final(self).buffered().unread() == 0
                &&& old(self)@.position <= final(self)@.position <= old(self)@.position + old(
                    buf,
                )@.len()
            },
            r matches Err(e) && e is IncompleteWrite ==> Self::dumps(
                *old(self),
                final(self).stream().calls(),
            ),
            r matches Err(e) ==> {
                ||| e is Io
                ||| e is IncompleteWrite && old(self).buffered().dirty
                ||| e is UnexpectedEof
            },
    {
        let ghost bytes = self@.bytes;
        let ghost position: nat = self@.position;
        match self.buffer.get_read_exact_command(&*buf) {
            ReadExactCommand::Read => {
                let _: usize = self.serve(buf);
                assert(buf@ =~= buf@.subrange(0, buf@.len() as int));
                Ok(())
            },
            ReadExactCommand::ReadFillRead { split, dump_before_fill } => {
                let _: usize = self.serve(buf);
                self.leave_window(dump_before_fill)?;
                assert(Self::leaves(*old(self), dump_before_fill, self.stream().calls()));
                let r = self.refill_exact(buf, split);
                proof {
                    Self::lemma_exact_done(bytes, position, split as nat, buf@);
                }
                r
            },
            ReadExactCommand::FillRead { dump_before_fill } => {
                self.leave_window(dump_before_fill)?;
                assert(Self::leaves(*old(self), dump_before_fill, self.stream().calls()));
                let r = self.refill_exact(buf, 0);
                proof {
                    Self::lemma_exact_done(bytes, position, 0, buf@);
                }
                r
            },
            ReadExactCommand::ReadDirect { dump_before } => {
                self.leave_window(dump_before)?;
                assert(Self::leaves(*old(self), dump_before, self.stream().calls()));
                let r = self.direct_exact(buf, 0);
                proof {
                    Self::lemma_exact_done(bytes, position, 0, buf@);
                }
                r
            },
            ReadExactCommand::ReadReadDirect { split, dump_before } => {
                let _: usize = self.serve(buf);
                self.leave_window(dump_before)?;
                assert(Self::leaves(*old(self), dump_before, self.stream().calls()));
                let r = self.direct_exact(buf, split);
                proof {
                    Self::lemma_exact_done(bytes, position, split as nat, buf@);
                }
                r
            },
        }
    }

    /// Fills the rest of `buf`, whose first `from` bytes hold what precedes the
    /// position, through the buffer: refills it and copies out of it until `buf` is
    /// full or the stream has nothing more to give.
    #[verifier::loop_isolation(false)]
    #[verifier::rlimit(80)]
    fn refill_exact(&mut self, buf: &mut [u8], from: usize) -> (r: Result<(), Error<T::Error>>)
        requires
            old(self).wf(),
            old(self).buffered().filled == 0,
            old(self).buffered().capacity() > 0,
            Self::served(old(self).stream().bytes(), old(self)@.position, old(buf)@, from as nat),
        ensures
            final(self).inv(),
            final(self).buffered().capacity() == old(self).buffered().capacity(),
            final(buf)@.len() == old(buf)@.len(),
            r is Err ==> Self::called(*old(self), *final(self)),
            r matches Err(e) && e is Io ==> final(self).stream().calls().last().failed(),
            r is Ok ==> {
                &&& final(self).wf()
                &&& crate::stream::then_run(
                    old(self).stream().calls(),
                    Seq::empty(),
                    Kind::Read,
                    old(buf)@.len() > from,
                    final(self).stream().calls(),
                )
                &&& final(self).stream().calls().len() <= old(self).stream().calls().len() + old(
                    buf,
                )@.len() - from
                &&& final(self).stream().calls().len() == old(self).stream().calls().len() + 1
                    ==> final(self).window_start() == old(self)@.position
                &&& final(self).stream().bytes() == old(self).stream().bytes()
                &&& final(self)@.bytes == old(self).stream().bytes()
                &&& final(self).stream().cursor() == final(self).window_end()
                &&& final(self).window_start() >= old(self).window_start()
                &&& final(self).ahead() == final(self).buffered().filled
                &&& !final(self).buffered().dirty
                &&& final(self)@.position == old(self)@.position + old(buf)@.len() - from
                &&& Self::served(
                    old(self).stream().bytes(),
                    final(self)@.position,
                    final(buf)@,
                    old(buf)@.len(),
                )
            },
            r matches Err(e) && e is UnexpectedEof ==> Self::starved(
                *old(self),
                (old(buf)@.len() - from) as nat,
                *final(self),
            ),
            r matches Err(e) && e is Io ==> {
                &&& final(self).buffered().unread() == 0
                &&& old(self)@.position <= final(self)@.position <= old(self)@.position + old(
                    buf,
                )@.len() - from
            },
            r matches Err(e) ==> e is Io || e is UnexpectedEof,
    {
        let ghost bytes = self.stream().bytes();
        let ghost origin: int = self@.position - from;
        let ghost seen: nat = self.stream().calls().len();
        let len: usize = buf.len();
        let mut done: usize = from;
        proof {
            crate::stream::lemma_run_starts(self.stream().calls(), Kind::Read);
            crate::model::lemma_write_at_mirrored(
                self.stream().bytes(),
                self.window_start() as nat,
                self.buffered().valid(),
            );
        }
        while done < len
            invariant
                self.wf(),
                crate::stream::then_run(
                    old(self).stream().calls(),
                    Seq::empty(),
                    Kind::Read,
                    done > from,
                    self.stream().calls(),
                ),
                seen <= self.stream().calls().len() <= seen + done - from,
                done > from ==> self.stream().calls().len() > seen,
                self.stream().calls().len() == seen + 1 ==> self.window_start() == old(
                    self,
                )@.position,
                from <= done <= len,
                len == buf@.len(),
                self.stream().bytes() == bytes,
                self@.bytes == bytes,
                self.stream().cursor() == self.window_end(),
                self.window_start() >= old(self).window_start(),
                self.ahead() == self.buffered().filled,
                !self.buffered().dirty,
                self.buffered().capacity() == old(self).buffered().capacity(),
                done < len ==> self.buffered().unread() == 0,
                self@.position == origin + done,
                Self::served(bytes, self@.position, buf@, done as nat),
            decreases len - done,
        {
            let ghost before = buf@;
            let ghost seen_now = self.stream().calls();
            let refilled = self.refill();
            proof {
                crate::stream::lemma_run_grows(
                    old(self).stream().calls(),
                    Seq::empty(),
                    Kind::Read,
                    done > from,
                    seen_now,
                    Call::Read(self.buffered().capacity(), crate::stream::count(refilled)),
                );
                crate::stream::lemma_pushed(
                    seen_now,
                    Call::Read(self.buffered().capacity(), crate::stream::count(refilled)),
                );
            }
            let got: usize = refilled?;
            if got == 0 {
                return Err(Error::UnexpectedEof);
            }
            let (head, tail) = buf.split_at_mut(done);
            let n: usize = self.serve(tail);
            proof {
                assert(buf@.subrange(0, done as int) =~= before.subrange(0, done as int));
                assert(buf@.subrange(0, done + n) =~= before.subrange(0, done as int)
                    + tail@.subrange(0, n as int));
                assert(buf@.subrange(0, done + n) =~= bytes.subrange(origin, origin + done + n));
            }
            done = done + n;
        }
        proof {
            assert(buf@ =~= buf@.subrange(0, len as int));
        }
        Ok(())
    }

    /// Fills the rest of `buf`, whose first `from` bytes hold what precedes the
    /// position, from the stream directly, past the empty buffer: reads until `buf`
    /// is full or the stream has nothing more to give.
    #[verifier::loop_isolation(false)]
    #[verifier::rlimit(80)]
    fn direct_exact(&mut self, buf: &mut [u8], from: usize) -> (r: Result<(), Error<T::Error>>)
        requires
            old(self).wf(),
            old(self).buffered().filled == 0,
            old(self).ahead() == 0,
            Self::served(old(self).stream().bytes(), old(self)@.position, old(buf)@, from as nat),
        ensures
            final(self).inv(),
            final(buf)@.len() == old(buf)@.len(),
            final(self).buffered() == old(self).buffered(),
            final(self).ahead() == 0,
            r is Err ==> Self::called(*old(self), *final(self)),
            r matches Err(e) && e is Io ==> final(self).stream().calls().last().failed(),
            r is Ok ==> {
                &&& final(self).wf()
                &&& crate::stream::then_run(
                    old(self).stream().calls(),
                    Seq::empty(),
                    Kind::Read,
                    old(buf)@.len() > from,
                    final(self).stream().calls(),
                )
                &&& final(self).stream().calls().len() <= old(self).stream().calls().len() + old(
                    buf,
                )@.len() - from
                &&& final(self).stream().bytes() == old(self).stream().bytes()
                &&& final(self)@.bytes == old(self).stream().bytes()
                &&& final(self)@.position == old(self)@.position + old(buf)@.len() - from
                &&& Self::served(
                    old(self).stream().bytes(),
                    final(self)@.position,
                    final(buf)@,
                    old(buf)@.len(),
                )
            },
            r matches Err(e) && e is UnexpectedEof ==> Self::starved(
                *old(self),
                (old(buf)@.len() - from) as nat,
                *final(self),
            ),
            r matches Err(e) && e is Io ==> {
                &&& final(self).buffered().unread() == 0
                &&& old(self)@.position <= final(self)@.position <= old(self)@.position + old(
                    buf,
                )@.len() - from
            },
            r matches Err(e) ==> e is Io || e is UnexpectedEof,
    {
        let ghost bytes = self.stream().bytes();
        let ghost origin: int = self@.position - from;
        let ghost seen: nat = self.stream().calls().len();
        let len: usize = buf.len();
        let mut done: usize = from;
        proof {
            crate::stream::lemma_run_starts(self.stream().calls(), Kind::Read);
            crate::model::lemma_write_at_mirrored(
                self.stream().bytes(),
                self.window_start() as nat,
                self.buffered().valid(),
            );
        }
        while done < len
            invariant
                self.wf(),
                crate::stream::then_run(
                    old(self).stream().calls(),
                    Seq::empty(),
                    Kind::Read,
                    done > from,
                    self.stream().calls(),
                ),
                seen <= self.stream().calls().len() <= seen + done - from,
                from <= done <= len,
                len == buf@.len(),
                self.stream().bytes() == bytes,
                self@.bytes == bytes,
                self.buffered() == old(self).buffered(),
                self.ahead() == 0,
                self@.position == origin + done,
                Self::served(bytes, self@.position, buf@, done as nat),
            decreases len - done,
        {
            let ghost before = buf@;
            let ghost seen_now = self.stream().calls();
            let (head, tail) = buf.split_at_mut(done);
            let answer = self.read_inner(tail);
            proof {
                crate::stream::lemma_run_grows(
                    old(self).stream().calls(),
                    Seq::empty(),
                    Kind::Read,
                    done > from,
                    seen_now,
                    Call::Read((len - done) as nat, crate::stream::count(answer)),
                );
                crate::stream::lemma_pushed(
                    seen_now,
                    Call::Read((len - done) as nat, crate::stream::count(answer)),
                );
            }
            let n: usize = answer?;
            proof {
                assert(buf@.subrange(0, done as int) =~= before.subrange(0, done as int));
            }
            if n == 0 {
                return Err(Error::UnexpectedEof);
            }
            proof {
                assert(buf@.subrange(0, done + n) =~= before.subrange(0, done as int)
                    + tail@.subrange(0, n as int));
                assert(buf@.subrange(0, done + n) =~= bytes.subrange(origin, origin + done + n));
            }
            done = done + n;
        }
        proof {
            assert(buf@ =~= buf@.subrange(0, len as int));
        }
        Ok(())
    }
}

} // verus!
