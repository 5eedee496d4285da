//! The interface of the stream that the adapter sits on.

use vstd::prelude::*;

verus! {

/// A seek request: an offset counted from the start, from the end, or from the
/// current position.
#[derive(Clone, Copy, Debug, PartialEq, Eq)]
pub enum SeekFrom {
    Start(u64),
    End(i64),
    Current(i64),
}

impl SeekFrom {
    /// The offset this request asks for in a stream of `len` bytes whose cursor
    /// stands at `cursor`.
    pub open spec fn target(self, cursor: int, len: int) -> int {
        match self {
            SeekFrom::Start(offset) => offset as int,
            SeekFrom::End(offset) => len + offset,
            SeekFrom::Current(offset) => cursor + offset,
        }
    }
}

/// The four methods of a stream.
pub enum Kind {
    Read,
    Write,
    Seek,
    Flush,
}

/// One call of a method of a stream, with what was handed to it and what it
/// answered.
pub enum Call {
    /// A read into a destination with room for so many bytes, and how many it
    /// read, unless it failed.
    Read(nat, Option<nat>),
    /// A write of these bytes, and how many of them it took, unless it failed.
    Write(Seq<u8>, Option<nat>),
    /// A seek with this request, and the offset it arrived at, unless it failed.
    Seek(SeekFrom, Option<u64>),
    /// A flush, and whether it succeeded.
    Flush(bool),
}

impl Call {
    /// The method that was called.
    pub open spec fn kind(self) -> Kind {
        match self {
            Call::Read(_, _) => Kind::Read,
            Call::Write(_, _) => Kind::Write,
            Call::Seek(_, _) => Kind::Seek,
            Call::Flush(_) => Kind::Flush,
        }
    }

    /// The call failed.
    pub open spec fn failed(self) -> bool {
        match self {
            Call::Read(_, answer) => answer is None,
            Call::Write(_, answer) => answer is None,
            Call::Seek(_, answer) => answer is None,
            Call::Flush(done) => !done,
        }
    }

    /// The call was a write that was handed bytes and took none.
    pub open spec fn took_nothing(self) -> bool {
        self matches Call::Write(data, Some(n)) && n == 0 && data.len() > 0
    }
}

/// The count that a read or a write answered with, if it did not fail.
pub open spec fn count<E>(r: Result<usize, E>) -> Option<nat> {
    match r {
        Ok(n) => Some(n as nat),
        Err(_) => None,
    }
}

/// The offset that a seek answered with, if it did not fail.
pub open spec fn offset<E>(r: Result<u64, E>) -> Option<u64> {
    match r {
        Ok(p) => Some(p),
        Err(_) => None,
    }
}

/// `after` is `before`, then `next`, and then nothing but calls of the method
/// `kind`: at least one if `some` says so, and none otherwise.
#[verifier::opaque]
pub open spec fn then_run(
    before: Seq<Call>,
    next: Seq<Call>,
    kind: Kind,
    some: bool,
    after: Seq<Call>,
) -> bool {
    let fixed: nat = before.len() + next.len();
    &&& after.len() >= fixed
    &&& forall|i: int| 0 <= i < before.len() ==> after[i] == before[i]
    &&& forall|i: int| 0 <= i < next.len() ==> after[before.len() + i] == next[i]
    &&& forall|i: int| fixed <= i < after.len() ==> (#[trigger] after[i]).kind() == kind
    &&& some <==> after.len() > fixed
}

/// What one more call makes of a record of calls.
pub proof fn lemma_pushed(before: Seq<Call>, call: Call)
    ensures
        before.push(call).len() > 0,
        before.push(call).last() == call,
        before.push(call).drop_last() == before,
{
}

/// A run starts with nothing.
pub proof fn lemma_run_starts(before: Seq<Call>, kind: Kind)
    ensures
        then_run(before, Seq::empty(), kind, false, before),
{
    reveal(then_run);
}

/// One more call of its kind makes a run longer by one.
pub proof fn lemma_run_grows(
    before: Seq<Call>,
    next: Seq<Call>,
    kind: Kind,
    some: bool,
    after: Seq<Call>,
    call: Call,
)
    requires
        then_run(before, next, kind, some, after),
        call.kind() == kind,
    ensures
        then_run(before, next, kind, true, after.push(call)),
{
    reveal(then_run);
}

/// A run that starts after one more call is a run after what preceded that call.
pub proof fn lemma_run_follows(
    before: Seq<Call>,
    first: Call,
    kind: Kind,
    some: bool,
    after: Seq<Call>,
)
    requires
        then_run(before.push(first), Seq::empty(), kind, some, after),
    ensures
        then_run(before, seq![first], kind, some, after),
{
    reveal(then_run);
    assert forall|i: int| 0 <= i < before.len() implies after[i] == before[i] by {
        assert(before.push(first)[i] == before[i]);
    }
    assert(after[before.len() as int] == before.push(first)[before.len() as int]);
}

/// A run is no shorter than what it follows, and by how much says whether there
/// is some of it.
pub proof fn lemma_run_length(
    before: Seq<Call>,
    next: Seq<Call>,
    kind: Kind,
    some: bool,
    after: Seq<Call>,
)
    requires
        then_run(before, next, kind, some, after),
    ensures
        after.len() >= before.len() + next.len(),
        some <==> after.len() > before.len() + next.len(),
{
    reveal(then_run);
}

/// A random-access byte stream that can be written to: a sequence of bytes and a
/// cursor into it, and the record of the calls that were made on it.
///
/// The cursor may stand past the end. A write there first fills the gap with
/// zeros. Every method may fail; a failure says nothing about the bytes and the
/// cursor that the stream is left with.
pub trait Stream: Sized {
    /// The error of a failed operation.
    type Error;

    /// The bytes the stream holds.
    ///
    /// An implementation in verified code says here what it holds. The body given
    /// here only spares an implementation in unverified code the ghost types.
    open spec fn bytes(&self) -> Seq<u8> {
        arbitrary()
    }

    /// The offset at which the next read or write takes place.
    open spec fn cursor(&self) -> u64 {
        arbitrary()
    }

    /// The calls of `read`, `write`, `seek` and `flush` that were made on the
    /// stream, the successful and the failed, in their order, each with what was
    /// handed to it and what it answered.
    open spec fn calls(&self) -> Seq<Call> {
        arbitrary()
    }

    /// Writes some bytes from the front of `buf` at the cursor and moves the cursor
    /// past them. Fewer bytes than `buf` holds may be written.
    fn write(&mut self, buf: &[u8]) -> (r: Result<usize, Self::Error>)
        ensures
            final(self).calls() == old(self).calls().push(Call::Write(buf@, count(r))),
            r matches Ok(n) ==> {
                &&& n <= buf@.len()
                &&& final(self).bytes() == crate::model::write_at(
                    old(self).bytes(),
                    old(self).cursor() as nat,
                    buf@.subrange(0, n as int),
                )
                &&& final(self).cursor() == old(self).cursor() + n
            },
    ;

    /// Moves the cursor to the offset that `pos` asks for and returns it.
    fn seek(&mut self, pos: SeekFrom) -> (r: Result<u64, Self::Error>)
        ensures
            final(self).calls() == old(self).calls().push(Call::Seek(pos, offset(r))),
            r matches Ok(offset) ==> {
                &&& offset == pos.target(old(self).cursor() as int, old(self).bytes().len() as int)
                &&& final(self).cursor() == offset
                &&& final(self).bytes() == old(self).bytes()
            },
    ;

    /// Makes sure that what was written has reached its destination. Contents and
    /// cursor stay as they are.
    fn flush(&mut self) -> (r: Result<(), Self::Error>)
        ensures
            final(self).calls() == old(self).calls().push(Call::Flush(r is Ok)),
            r is Ok ==> final(self).bytes() == old(self).bytes() && final(self).cursor() == old(
                self,
            ).cursor(),
    ;
}

/// A stream that can be read from as well.
pub trait ReadStream: Stream {
    /// Reads some bytes at the cursor into the front of `buf` and moves the cursor
    /// past them. Fewer bytes than `buf` has room for may be read; none are read
    /// only if `buf` is empty or the cursor is at or past the end.
    fn read(&mut self, buf: &mut [u8]) -> (r: Result<usize, Self::Error>)
        ensures
            final(buf)@.len() == old(buf)@.len(),
            final(self).calls() == old(self).calls().push(Call::Read(old(buf)@.len(), count(r))),
            r matches Ok(n) ==> {
                &&& crate::model::reads(
                    old(self).bytes(),
                    old(self).cursor() as nat,
                    old(buf)@.len(),
                    n as nat,
                    final(buf)@.subrange(0, n as int),
                )
                &&& final(self).bytes() == old(self).bytes()
                &&& final(self).cursor() == old(self).cursor() + n
            },
    ;
}

} // verus!
