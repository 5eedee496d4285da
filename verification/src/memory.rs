//! A stream held in memory.

use crate::stream::{Call, ReadStream, SeekFrom, Stream};
use vstd::prelude::*;

verus! {

/// The error of a [`MemoryStream`]: the request leads outside the offsets that the
/// stream can address.
#[derive(Clone, Copy, Debug, PartialEq, Eq)]
pub struct OutOfRange;

/// A growable byte vector with a cursor.
///
/// Reads never fail. A write fails only if it would end past `isize::MAX`, the most
/// bytes that a vector holds, a seek only if its target is negative or does not fit
/// in a `u64`; a failed call changes nothing.
pub struct MemoryStream {
    data: Vec<u8>,
    pos: u64,
    calls: Ghost<Seq<Call>>,
}

impl MemoryStream {
    /// A stream over `data`, with the cursor at the start.
    pub fn new(data: Vec<u8>) -> (r: Self)
        ensures
            r.bytes() == data@,
            r.cursor() == 0,
            r.calls() == Seq::<Call>::empty(),
    {
        MemoryStream { data, pos: 0, calls: Ghost(Seq::empty()) }
    }

    /// The cursor.
    pub fn position(&self) -> (r: u64)
        ensures
            r == self.cursor(),
    {
        self.pos
    }

    /// Moves the cursor to `pos`, which may lie past the end.
    pub fn set_position(&mut self, pos: u64)
        ensures
            final(self).cursor() == pos,
            final(self).bytes() == old(self).bytes(),
            final(self).calls() == old(self).calls(),
    {
        self.pos = pos;
    }

    /// The bytes of the stream.
    pub fn get_ref(&self) -> (r: &Vec<u8>)
        ensures
            r@ == self.bytes(),
    {
        &self.data
    }

    /// The bytes of the stream, to be changed in place. The cursor stays.
    pub fn get_mut(&mut self) -> (r: &mut Vec<u8>)
        ensures
            r@ == old(self).bytes(),
            final(self).bytes() == final(r)@,
            final(self).cursor() == old(self).cursor(),
            final(self).calls() == old(self).calls(),
    {
        &mut self.data
    }

    /// Gives up the stream for its bytes.
    pub fn into_inner(self) -> (r: Vec<u8>)
        ensures
            r@ == self.bytes(),
    {
        self.data
    }
}

impl Stream for MemoryStream {
    type Error = OutOfRange;

    closed spec fn bytes(&self) -> Seq<u8> {
        self.data@
    }

    closed spec fn cursor(&self) -> u64 {
        self.pos
    }

    closed spec fn calls(&self) -> Seq<Call> {
        self.calls@
    }

    fn write(&mut self, buf: &[u8]) -> (r: Result<usize, OutOfRange>)
        ensures
            old(self).cursor() + buf@.len() <= isize::MAX || buf@.len() == 0 ==> r == Ok::<
                usize,
                OutOfRange,
            >(buf.len()),
            old(self).cursor() + buf@.len() > isize::MAX && buf@.len() > 0 ==> r is Err,
            r is Err ==> final(self).bytes() == old(self).bytes() && final(self).cursor() == old(
                self,
            ).cursor(),
    {
        let len: usize = buf.len();
        if len == 0 {
            self.calls = Ghost(self.calls@.push(Call::Write(buf@, Some(0nat))));
            return Ok(0);
        }
        let most: usize = isize::MAX as usize;
        if len > most || self.pos > (most - len) as u64 {
            self.calls = Ghost(self.calls@.push(Call::Write(buf@, None)));
            return Err(OutOfRange);
        }
        let start: usize = self.pos as usize;
        while self.data.len() < start
            invariant
                self.pos == old(self).pos,
                self.calls@ == old(self).calls@,
                start == self.pos,
                old(self).data@.len() <= self.data@.len(),
                self.data@.len() <= start || self.data@ == old(self).data@,
                forall|j: int| 0 <= j < old(self).data@.len() ==> self.data@[j] == old(self).data@[j],
                forall|j: int| old(self).data@.len() <= j < self.data@.len() ==> self.data@[j] == 0u8,
            decreases start - self.data@.len(),
        {
            self.data.push(0u8);
        }
        let ghost padded = self.data@;
        let mut i: usize = 0;
        while i < len
            invariant
                i <= len,
                len == buf@.len(),
                start + len <= usize::MAX,
                self.pos == old(self).pos,
                self.calls@ == old(self).calls@,
                start <= padded.len(),
                padded.len() == if old(self).data@.len() >= start {
                    old(self).data@.len()
                } else {
                    start as nat
                },
                forall|j: int| 0 <= j < old(self).data@.len() ==> padded[j] == old(self).data@[j],
                forall|j: int| old(self).data@.len() <= j < padded.len() ==> padded[j] == 0u8,
                self.data@.len() == if padded.len() >= start + i { padded.len() } else { (start + i) as nat },
                forall|j: int| 0 <= j < start ==> self.data@[j] == padded[j],
                forall|j: int| start <= j < start + i ==> self.data@[j] == buf@[j - start],
                forall|j: int| start + i <= j < padded.len() ==> self.data@[j] == padded[j],
            decreases len - i,
        {
            let at: usize = start + i;
            if at < self.data.len() {
                self.data[at] = buf[i];
            } else {
                self.data.push(buf[i]);
            }
            i += 1;
        }
        self.pos = self.pos + len as u64;
        let ghost want = crate::model::write_at(old(self).data@, start as nat, buf@);
        assert forall|j: int| 0 <= j < want.len() implies self.data@[j] == want[j] by {
            if j < start {
                assert(self.data@[j] == padded[j]);
            }
        }
        assert(self.data@ =~= want);
        self.calls = Ghost(self.calls@.push(Call::Write(buf@, Some(len as nat))));
        Ok(len)
    }

    fn seek(&mut self, pos: SeekFrom) -> (r: Result<u64, OutOfRange>)
        ensures
            r is Ok <==> 0 <= pos.target(
                old(self).cursor() as int,
                old(self).bytes().len() as int,
            ) <= u64::MAX,
            r is Err ==> final(self).bytes() == old(self).bytes() && final(self).cursor() == old(
                self,
            ).cursor(),
    {
        let target: i128 = match pos {
            SeekFrom::Start(offset) => offset as i128,
            SeekFrom::End(offset) => self.data.len() as i128 + offset as i128,
            SeekFrom::Current(offset) => self.pos as i128 + offset as i128,
        };
        if target < 0 || target > u64::MAX as i128 {
            self.calls = Ghost(self.calls@.push(Call::Seek(pos, None)));
            return Err(OutOfRange);
        }
        self.pos = target as u64;
        self.calls = Ghost(self.calls@.push(Call::Seek(pos, Some(self.pos))));
        Ok(self.pos)
    }

    fn flush(&mut self) -> (r: Result<(), OutOfRange>)
        ensures
            r is Ok,
    {
        self.calls = Ghost(self.calls@.push(Call::Flush(true)));
        Ok(())
    }
}

impl ReadStream for MemoryStream {
    fn read(&mut self, buf: &mut [u8]) -> (r: Result<usize, OutOfRange>)
        ensures
            r is Ok,
            r->Ok_0 == if old(buf)@.len() <= crate::model::available(
                old(self).bytes().len(),
                old(self).cursor() as nat,
            ) {
                old(buf)@.len()
            } else {
                crate::model::available(old(self).bytes().len(), old(self).cursor() as nat)
            },
            final(buf)@.subrange(r->Ok_0 as int, old(buf)@.len() as int) == old(buf)@.subrange(
                r->Ok_0 as int,
                old(buf)@.len() as int,
            ),
    {
        let len: usize = self.data.len();
        if self.pos >= len as u64 {
            self.calls = Ghost(self.calls@.push(Call::Read(buf@.len(), Some(0nat))));
            return Ok(0);
        }
        let start: usize = self.pos as usize;
        let left: usize = len - start;
        let n: usize = if buf.len() <= left { buf.len() } else { left };
        let mut i: usize = 0;
        while i < n
            invariant
                i <= n,
                n <= buf@.len(),
                start + n <= self.data@.len() <= usize::MAX,
                buf@.len() == old(buf)@.len(),
                self.data@ == old(self).data@,
                self.pos == old(self).pos,
                self.calls@ == old(self).calls@,
                forall|j: int| 0 <= j < i ==> buf@[j] == self.data@[start + j],
                forall|j: int| i <= j < buf@.len() ==> buf@[j] == old(buf)@[j],
            decreases n - i,
        {
            buf[i] = self.data[start + i];
            i += 1;
        }
        self.pos = self.pos + n as u64;
        self.calls = Ghost(self.calls@.push(Call::Read(buf@.len(), Some(n as nat))));
        assert(buf@.subrange(0, n as int) =~= old(self).data@.subrange(
            start as int,
            start + n,
        ));
        Ok(n)
    }
}

} // verus!
