//! The fixed-size buffer of the adapter, and the decisions it takes.
//!
//! A [`Buffer`] owns a byte region whose length never changes. The front of the
//! region, up to `filled`, holds valid bytes; `cursor` is where the next byte is
//! read from and written to. The bytes are either a copy of a part of the stream or
//! data that has not reached the stream yet; `dirty` tells which.
//!
//! For every request the buffer first decides what is to be done, as a value of
//! [`ReadCommand`], [`ReadExactCommand`] or [`WriteAllCommand`]; carrying the
//! decision out is the caller's part.

use crate::error::Error;
use crate::stream::{Call, Kind, ReadStream, Stream};
use vstd::prelude::*;

verus! {

/// How a write request is carried out.
#[derive(Clone, Copy, Debug, PartialEq, Eq)]
pub enum WriteAllCommand {
    /// The request fits behind the cursor: copy it into the buffer.
    Write,
    /// Only the given number of bytes fits: copy them in, dump the buffer, clear it,
    /// and copy the rest into the empty buffer.
    WriteDumpWrite(usize),
    /// The request is as large as the buffer and the buffer holds unwritten data:
    /// dump the buffer, then write to the stream directly.
    DumpWriteDirect,
    /// The request is as large as the buffer: write to the stream directly.
    WriteDirect,
}

/// How a read request that may be served in part is carried out.
#[derive(Clone, Copy, Debug, PartialEq, Eq)]
pub enum ReadCommand {
    /// Copy the given number of bytes out of the buffer.
    Read(usize),
    /// Nothing is left to read in the buffer: refill it from the stream, then copy
    /// out of it. A buffer with unwritten data is dumped first.
    FillRead { dump_before_fill: bool },
    /// Nothing is left to read in the buffer and the request is as large as the
    /// buffer: read from the stream directly. A buffer with unwritten data is dumped
    /// first.
    ReadDirect { dump_before: bool },
}

/// How a read request that must be served in full is carried out.
#[derive(Clone, Copy, Debug, PartialEq, Eq)]
pub enum ReadExactCommand {
    /// The buffer holds all the bytes asked for: copy them out.
    Read,
    /// The buffer holds the first `split` bytes: copy them out, refill the buffer and
    /// copy the rest out of it. A buffer with unwritten data is dumped before the
    /// refill.
    ReadFillRead { split: usize, dump_before_fill: bool },
    /// The buffer holds nothing to read: refill it and copy out of it. A buffer with
    /// unwritten data is dumped before the refill.
    FillRead { dump_before_fill: bool },
    /// The request is as large as the buffer, which holds nothing to read: read from
    /// the stream directly. A buffer with unwritten data is dumped first.
    ReadDirect { dump_before: bool },
    /// The request is as large as the buffer, which holds its first `split` bytes:
    /// copy them out, then read the rest from the stream directly. A buffer with
    /// unwritten data is dumped in between.
    ReadReadDirect { split: usize, dump_before: bool },
}

/// What a [`Buffer`] is, seen from outside.
pub struct BufferView {
    /// The whole region; its length is the capacity.
    pub data: Seq<u8>,
    /// The offset of the next byte to read or write.
    pub cursor: nat,
    /// How many bytes at the front of the region are valid.
    pub filled: nat,
    /// Whether the valid bytes hold data that the stream has not received.
    pub dirty: bool,
}

impl BufferView {
    /// The cursor lies within the valid bytes, and these within the region; a dirty
    /// buffer holds at least one byte.
    pub open spec fn inv(self) -> bool {
        &&& self.cursor <= self.filled <= self.data.len() <= isize::MAX
        &&& self.dirty ==> self.filled > 0
    }

    /// The length of the region.
    pub open spec fn capacity(self) -> nat {
        self.data.len()
    }

    /// The number of valid bytes behind the cursor.
    pub open spec fn unread(self) -> nat {
        (self.filled - self.cursor) as nat
    }

    /// The room behind the cursor.
    pub open spec fn writable(self) -> nat {
        (self.data.len() - self.cursor) as nat
    }

    /// The valid bytes.
    pub open spec fn valid(self) -> Seq<u8> {
        self.data.subrange(0, self.filled as int)
    }

    /// The decision for a read of `len` bytes that may be served in part.
    pub open spec fn read_command(self, len: nat) -> ReadCommand {
        if self.cursor != self.filled {
            ReadCommand::Read((if len <= self.unread() { len } else { self.unread() }) as usize)
        } else if len >= self.capacity() {
            ReadCommand::ReadDirect { dump_before: self.dirty }
        } else {
            ReadCommand::FillRead { dump_before_fill: self.dirty }
        }
    }

    /// The decision for a read of `len` bytes that must be served in full.
    pub open spec fn read_exact_command(self, len: nat) -> ReadExactCommand {
        if len >= self.capacity() {
            if self.cursor != self.filled {
                ReadExactCommand::ReadReadDirect {
                    split: self.unread() as usize,
                    dump_before: self.dirty,
                }
            } else {
                ReadExactCommand::ReadDirect { dump_before: self.dirty }
            }
        } else if self.unread() >= len {
            ReadExactCommand::Read
        } else if self.cursor != self.filled {
            ReadExactCommand::ReadFillRead {
                split: self.unread() as usize,
                dump_before_fill: self.dirty,
            }
        } else {
            ReadExactCommand::FillRead { dump_before_fill: self.dirty }
        }
    }

    /// The decision for a write of `len` bytes.
    pub open spec fn write_command(self, len: nat) -> WriteAllCommand {
        if len >= self.capacity() {
            if self.dirty && self.filled != 0 {
                WriteAllCommand::DumpWriteDirect
            } else {
                WriteAllCommand::WriteDirect
            }
        } else if self.writable() >= len {
            WriteAllCommand::Write
        } else {
            WriteAllCommand::WriteDumpWrite(self.writable() as usize)
        }
    }

    /// The buffer after `n` bytes were copied out at the cursor.
    pub open spec fn after_read(self, n: nat) -> BufferView {
        BufferView { cursor: self.cursor + n, ..self }
    }

    /// The buffer after `src` was copied in at the cursor. Copying nothing leaves it
    /// as it is; anything else makes it dirty.
    pub open spec fn after_write(self, src: Seq<u8>) -> BufferView {
        if src.len() == 0 {
            self
        } else {
            BufferView {
                data: Seq::new(
                    self.data.len(),
                    |i: int|
                        if self.cursor <= i < self.cursor + src.len() {
                            src[i - self.cursor]
                        } else {
                            self.data[i]
                        },
                ),
                cursor: self.cursor + src.len(),
                filled: if self.filled >= self.cursor + src.len() {
                    self.filled
                } else {
                    self.cursor + src.len()
                },
                dirty: true,
            }
        }
    }

    /// The buffer with nothing valid in it.
    pub open spec fn cleared(self) -> BufferView {
        BufferView { cursor: 0, filled: 0, dirty: false, ..self }
    }
}

/// A byte region of fixed length with a cursor, a fill level and a dirty flag.
pub struct Buffer {
    data: Vec<u8>,
    pos: usize,
    filled: usize,
    is_dirty: bool,
}

impl View for Buffer {
    type V = BufferView;

    closed spec fn view(&self) -> BufferView {
        BufferView {
            data: self.data@,
            cursor: self.pos as nat,
            filled: self.filled as nat,
            dirty: self.is_dirty,
        }
    }
}

impl Buffer {
    /// The invariant of the buffer: that of its view.
    pub open spec fn inv(&self) -> bool {
        self@.inv()
    }

    /// An empty, clean buffer over a zeroed region of `capacity` bytes.
    pub fn with_capacity(capacity: usize) -> (r: Self)
        requires
            capacity <= isize::MAX,
        ensures
            r.inv(),
            r@ == (BufferView {
                data: Seq::new(capacity as nat, |i: int| 0u8),
                cursor: 0,
                filled: 0,
                dirty: false,
            }),
    {
        let data: Vec<u8> = vec![0u8; capacity];
        assert(data@ =~= Seq::new(capacity as nat, |i: int| 0u8));
        Buffer { data, pos: 0, filled: 0, is_dirty: false }
    }

    /// An empty, clean buffer over the given region, whose contents are kept.
    pub fn from_region(region: Vec<u8>) -> (r: Self)
        requires
            region@.len() <= isize::MAX,
        ensures
            r.inv(),
            r@ == (BufferView { data: region@, cursor: 0, filled: 0, dirty: false }),
    {
        Buffer { data: region, pos: 0, filled: 0, is_dirty: false }
    }

    /// Gives up the buffer for its region.
    pub fn into_region(self) -> (r: Vec<u8>)
        ensures
            r@ == self@.data,
    {
        self.data
    }

    /// Whether valid bytes are left behind the cursor.
    pub fn has_readable_bytes_left(&self) -> (r: bool)
        ensures
            r == (self@.cursor != self@.filled),
    {
        self.pos != self.filled
    }

    /// The number of valid bytes behind the cursor.
    pub fn num_readable_bytes_left(&self) -> (r: usize)
        requires
            self.inv(),
        ensures
            r == self@.unread(),
    {
        self.filled - self.pos
    }

    /// The room behind the cursor, up to the end of the region.
    pub fn num_writable_bytes_left(&self) -> (r: usize)
        requires
            self.inv(),
        ensures
            r == self@.writable(),
    {
        self.capacity() - self.pos
    }

    /// The number of valid bytes.
    pub fn num_valid_bytes(&self) -> (r: usize)
        ensures
            r == self@.filled,
    {
        self.filled
    }

    /// The length of the region.
    pub fn capacity(&self) -> (r: usize)
        ensures
            r == self@.capacity(),
    {
        self.data.len()
    }

    /// The cursor.
    pub fn position(&self) -> (r: usize)
        ensures
            r == self@.cursor,
    {
        self.pos
    }

    /// Whether the valid bytes hold data that the stream has not received.
    pub fn is_dirty(&self) -> (r: bool)
        ensures
            r == self@.dirty,
    {
        self.is_dirty
    }

    /// Moves the cursor to `pos`, or to the end of the valid bytes if `pos` lies
    /// beyond it.
    pub fn set_position(&mut self, pos: u64)
        requires
            old(self).inv(),
        ensures
            final(self)@ == (BufferView {
                cursor: if pos <= old(self)@.filled { pos as nat } else { old(self)@.filled },
                ..old(self)@
            }),
    {
        if pos <= self.filled as u64 {
            self.pos = pos as usize;
        } else {
            self.pos = self.filled;
        }
    }

    /// Forgets the valid bytes. The region itself is not touched.
    pub fn clear(&mut self)
        ensures
            final(self)@ == old(self)@.cleared(),
    {
        self.pos = 0;
        self.filled = 0;
        self.is_dirty = false;
    }

    /// Decides how a read into `buf` that may be served in part is carried out.
    pub fn get_read_command(&self, buf: &[u8]) -> (r: ReadCommand)
        requires
            self.inv(),
        ensures
            r == self@.read_command(buf@.len()),
    {
        if self.has_readable_bytes_left() {
            let left: usize = self.num_readable_bytes_left();
            ReadCommand::Read(if buf.len() <= left { buf.len() } else { left })
        } else if buf.len() >= self.capacity() {
            ReadCommand::ReadDirect { dump_before: self.is_dirty }
        } else {
            ReadCommand::FillRead { dump_before_fill: self.is_dirty }
        }
    }

    /// Decides how a read into `buf` that must fill it is carried out.
    pub fn get_read_exact_command(&self, buf: &[u8]) -> (r: ReadExactCommand)
        requires
            self.inv(),
        ensures
            r == self@.read_exact_command(buf@.len()),
    {
        if buf.len() >= self.capacity() {
            if self.has_readable_bytes_left() {
                ReadExactCommand::ReadReadDirect {
                    split: self.num_readable_bytes_left(),
                    dump_before: self.is_dirty,
                }
            } else {
                ReadExactCommand::ReadDirect { dump_before: self.is_dirty }
            }
        } else if self.num_readable_bytes_left() >= buf.len() {
            ReadExactCommand::Read
        } else if self.has_readable_bytes_left() {
            ReadExactCommand::ReadFillRead {
                split: self.num_readable_bytes_left(),
                dump_before_fill: self.is_dirty,
            }
        } else {
            ReadExactCommand::FillRead { dump_before_fill: self.is_dirty }
        }
    }

    /// Decides how a write of `buf` is carried out.
    pub fn get_write_exact_command(&self, buf: &[u8]) -> (r: WriteAllCommand)
        requires
            self.inv(),
        ensures
            r == self@.write_command(buf@.len()),
    {
        if buf.len() >= self.capacity() {
            if self.is_dirty && self.num_valid_bytes() != 0 {
                WriteAllCommand::DumpWriteDirect
            } else {
                WriteAllCommand::WriteDirect
            }
        } else if self.num_writable_bytes_left() >= buf.len() {
            WriteAllCommand::Write
        } else {
            WriteAllCommand::WriteDumpWrite(self.num_writable_bytes_left())
        }
    }

    /// Copies bytes from the cursor on into the front of `buf`, as many as are left
    /// to read and fit, and moves the cursor past them. The rest of `buf` is left
    /// alone.
    pub fn read(&mut self, buf: &mut [u8]) -> (n: usize)
        requires
            old(self).inv(),
        ensures
            n == if old(buf)@.len() <= old(self)@.unread() {
                old(buf)@.len()
            } else {
                old(self)@.unread()
            },
            final(self)@ == old(self)@.after_read(n as nat),
            final(buf)@ == old(self)@.data.subrange(
                old(self)@.cursor as int,
                old(self)@.cursor + n,
            ) + old(buf)@.subrange(n as int, old(buf)@.len() as int),
    {
        let left: usize = self.num_readable_bytes_left();
        let n: usize = if buf.len() <= left { buf.len() } else { left };
        let start: usize = self.pos;
        let mut i: usize = 0;
        while i < n
            invariant
                i <= n,
                n <= buf@.len(),
                start + n <= self.data@.len() <= usize::MAX,
                buf@.len() == old(buf)@.len(),
                *self == *old(self),
                forall|j: int| 0 <= j < i ==> buf@[j] == self.data@[start + j],
                forall|j: int| i <= j < buf@.len() ==> buf@[j] == old(buf)@[j],
            decreases n - i,
        {
            buf[i] = self.data[start + i];
            i += 1;
        }
        self.pos = start + n;
        n
    }

    /// Copies bytes from the front of `buf` into the region from the cursor on, as
    /// many as fit, and moves the cursor past them. The valid bytes grow as far as
    /// the copy reaches.
    pub fn write(&mut self, buf: &[u8]) -> (n: usize)
        requires
            old(self).inv(),
        ensures
            n == if buf@.len() <= old(self)@.writable() {
                buf@.len()
            } else {
                old(self)@.writable()
            },
            final(self)@ == old(self)@.after_write(buf@.subrange(0, n as int)),
            final(self).inv(),
    {
        let room: usize = self.num_writable_bytes_left();
        let n: usize = if buf.len() <= room { buf.len() } else { room };
        if n == 0 {
            return 0;
        }
        let start: usize = self.pos;
        if start + n > self.filled {
            self.filled = start + n;
        }
        let mut i: usize = 0;
        while i < n
            invariant
                i <= n,
                n <= buf@.len(),
                start + n <= self.data@.len() <= usize::MAX,
                self.data@.len() == old(self).data@.len(),
                self.pos == old(self).pos,
                self.is_dirty == old(self).is_dirty,
                self.filled == if old(self).filled >= start + n {
                    old(self).filled
                } else {
                    (start + n) as usize
                },
                forall|j: int| start <= j < start + i ==> self.data@[j] == buf@[j - start],
                forall|j: int|
                    0 <= j < self.data@.len() && !(start <= j < start + i) ==> self.data@[j] == old(
                        self,
                    ).data@[j],
            decreases n - i,
        {
            self.data[start + i] = buf[i];
            i += 1;
        }
        self.pos = start + n;
        self.is_dirty = true;
        assert(self@.data =~= old(self)@.after_write(buf@.subrange(0, n as int)).data);
        n
    }

    /// Replaces the contents of the buffer by what one read of `source` yields: up
    /// to as many bytes as the region is long, placed at its front. The buffer is
    /// clean afterwards, with the cursor at the front.
    ///
    /// On failure cursor, fill level and flag stay as they were.
    pub fn fill_from<S: ReadStream>(&mut self, source: &mut S) -> (r: Result<usize, S::Error>)
        requires
            old(self).inv(),
            old(self)@.cursor == old(self)@.filled,
        ensures
            final(self).inv(),
            final(self)@.data.len() == old(self)@.data.len(),
            final(source).calls() == old(source).calls().push(
                Call::Read(old(self)@.capacity(), crate::stream::count(r)),
            ),
            match r {
                Ok(n) => {
                    &&& crate::model::reads(
                        old(source).bytes(),
                        old(source).cursor() as nat,
                        old(self)@.capacity(),
                        n as nat,
                        final(self)@.valid(),
                    )
                    &&& final(source).bytes() == old(source).bytes()
                    &&& final(source).cursor() == old(source).cursor() + n
                    &&& final(self)@.cursor == 0
                    &&& final(self)@.filled == n
                    &&& !final(self)@.dirty
                },
                Err(_) => {
                    &&& final(self)@.cursor == old(self)@.cursor
                    &&& final(self)@.filled == old(self)@.filled
                    &&& final(self)@.dirty == old(self)@.dirty
                },
            },
    {
        let n: usize = source.read(self.data.as_mut_slice())?;
        self.pos = 0;
        self.filled = n;
        self.is_dirty = false;
        Ok(n)
    }

    /// What an answer of the stream to a write means for a dump that has `left`
    /// bytes to go: so many more bytes are written, or the dump ends, with
    /// `IncompleteWrite` where the stream took nothing and with the stream's own
    /// error where it failed.
    pub fn dumped<E>(left: usize, answer: Result<usize, E>) -> (r: Result<usize, Error<E>>)
        requires
            left > 0,
            answer matches Ok(m) ==> m <= left,
        ensures
            match answer {
                Ok(m) => if m > 0 {
                    r == Ok::<usize, Error<E>>(m)
                } else {
                    r == Err::<usize, Error<E>>(Error::IncompleteWrite)
                },
                Err(x) => r == Err::<usize, Error<E>>(Error::Io(x)),
            },
    {
        match answer {
            Ok(m) => {
                if m == 0 {
                    Err(Error::IncompleteWrite)
                } else {
                    Ok(m)
                }
            },
            Err(x) => Err(Error::Io(x)),
        }
    }

    /// Writes all the valid bytes to `dst`, in as many writes as `dst` needs; each
    /// write is handed what is left to write, and [`dumped`](Self::dumped) says
    /// what its answer means. The buffer is left as it is.
    ///
    /// With nothing valid in the buffer `dst` is not touched; else it sees nothing
    /// but writes, at least one. A failure is the answer of the last of them: it
    /// failed, or it took nothing.
    pub fn dump<S: Stream>(&mut self, dst: &mut S) -> (r: Result<usize, Error<S::Error>>)
        requires
            old(self).inv(),
        ensures
            *final(self) == *old(self),
            crate::stream::then_run(
                old(dst).calls(),
                Seq::empty(),
                Kind::Write,
                old(self)@.filled > 0,
                final(dst).calls(),
            ),
            r matches Ok(n) ==> {
                &&& n == old(self)@.filled
                &&& final(dst).bytes() == crate::model::write_at(
                    old(dst).bytes(),
                    old(dst).cursor() as nat,
                    old(self)@.valid(),
                )
                &&& final(dst).cursor() == old(dst).cursor() + n
            },
            r matches Err(e) ==> {
                &&& final(dst).calls().len() > 0
                &&& e is Io ==> final(dst).calls().last().failed()
                &&& e is IncompleteWrite ==> final(dst).calls().last().took_nothing()
                &&& e is Io || e is IncompleteWrite
            },
            old(self)@.filled == 0 ==> r is Ok && *final(dst) == *old(dst),
    {
        let n: usize = self.filled;
        let mut written: usize = 0;
        proof {
            crate::stream::lemma_run_starts(dst.calls(), Kind::Write);
        }
        while written < n
            invariant
                written <= n,
                n == self.filled,
                *self == *old(self),
                self.inv(),
                dst.bytes() == crate::model::write_at(
                    old(dst).bytes(),
                    old(dst).cursor() as nat,
                    self.data@.subrange(0, written as int),
                ),
                dst.cursor() == old(dst).cursor() + written,
                n == 0 ==> *dst == *old(dst),
                crate::stream::then_run(
                    old(dst).calls(),
                    Seq::empty(),
                    Kind::Write,
                    written > 0,
                    dst.calls(),
                ),
            decreases n - written,
        {
            let rest: &[u8] = vstd::slice::slice_subrange(self.data.as_slice(), written, n);
            let ghost seen = dst.calls();
            let answer = dst.write(rest);
            proof {
                crate::stream::lemma_run_grows(
                    old(dst).calls(),
                    Seq::empty(),
                    Kind::Write,
                    written > 0,
                    seen,
                    Call::Write(rest@, crate::stream::count(answer)),
                );
                crate::stream::lemma_pushed(
                    seen,
                    Call::Write(rest@, crate::stream::count(answer)),
                );
            }
            let m: usize = Self::dumped(n - written, answer)?;
            proof {
                crate::model::lemma_write_at_append(
                    old(dst).bytes(),
                    old(dst).cursor() as nat,
                    self.data@.subrange(0, written as int),
                    rest@.subrange(0, m as int),
                );
                assert(self.data@.subrange(0, written as int) + rest@.subrange(0, m as int)
                    =~= self.data@.subrange(0, written + m));
            }
            written = written + m;
        }
        Ok(n)
    }
}

} // verus!
