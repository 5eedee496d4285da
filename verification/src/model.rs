//! Mathematical model of a byte stream: what its contents become when bytes are
//! written at an offset, and where a seek request lands.

use vstd::prelude::*;

verus! {

/// The contents of a stream after `data` has been written at offset `at`.
///
/// Bytes of `data` replace what was there, the stream grows as far as the write
/// reaches, and a gap between the old end and `at` reads as zeros. Writing nothing
/// changes nothing, wherever `at` lies.
pub open spec fn write_at(bytes: Seq<u8>, at: nat, data: Seq<u8>) -> Seq<u8> {
    if data.len() == 0 {
        bytes
    } else {
        Seq::new(
            if bytes.len() >= at + data.len() { bytes.len() } else { at + data.len() },
            |i: int|
                if at <= i < at + data.len() {
                    data[i - at]
                } else if i < bytes.len() {
                    bytes[i]
                } else {
                    0u8
                },
        )
    }
}

/// How many bytes lie between `cursor` and the end of a stream of `len` bytes.
pub open spec fn available(len: nat, cursor: nat) -> nat {
    if cursor < len {
        (len - cursor) as nat
    } else {
        0
    }
}

/// A read of at most `want` bytes at `cursor` that returned the `n` bytes `got`.
///
/// It may be short, but it returns nothing only where nothing was asked for or
/// nothing is left.
pub open spec fn reads(bytes: Seq<u8>, cursor: nat, want: nat, n: nat, got: Seq<u8>) -> bool {
    &&& n <= want
    &&& n <= available(bytes.len(), cursor)
    &&& n > 0 ==> got == bytes.subrange(cursor as int, (cursor + n) as int)
    &&& n == 0 ==> want == 0 || available(bytes.len(), cursor) == 0
}

/// Two writes, the second starting where the first ended, are one write of the
/// concatenated data.
pub proof fn lemma_write_at_append(bytes: Seq<u8>, at: nat, first: Seq<u8>, second: Seq<u8>)
    ensures
        write_at(write_at(bytes, at, first), at + first.len(), second) == write_at(
            bytes,
            at,
            first + second,
        ),
{
}

/// The stream holds `copy` at offset `at`. An empty copy is held anywhere.
pub open spec fn mirrors(bytes: Seq<u8>, at: nat, copy: Seq<u8>) -> bool {
    copy.len() > 0 ==> at + copy.len() <= bytes.len() && bytes.subrange(
        at as int,
        (at + copy.len()) as int,
    ) == copy
}

/// Writing what is already there changes nothing.
pub proof fn lemma_write_at_mirrored(bytes: Seq<u8>, at: nat, copy: Seq<u8>)
    requires
        mirrors(bytes, at, copy),
    ensures
        write_at(bytes, at, copy) == bytes,
{
}

/// What was written is there afterwards.
pub proof fn lemma_write_at_mirrors(bytes: Seq<u8>, at: nat, data: Seq<u8>)
    ensures
        mirrors(write_at(bytes, at, data), at, data),
{
    if data.len() > 0 {
        assert(write_at(bytes, at, data).subrange(at as int, (at + data.len()) as int) =~= data);
    }
}

/// A part of what was written is read back as it was written.
pub proof fn lemma_write_at_read_back(
    bytes: Seq<u8>,
    at: nat,
    data: Seq<u8>,
    from: nat,
    to: nat,
)
    requires
        from <= to <= data.len(),
    ensures
        to > from ==> at + to <= write_at(bytes, at, data).len(),
        to > from ==> write_at(bytes, at, data).subrange((at + from) as int, (at + to) as int)
            == data.subrange(from as int, to as int),
{
}

/// Writing into the middle or at the end of something written earlier is the same
/// as having written the patched data in the first place.
pub proof fn lemma_write_at_patch(
    bytes: Seq<u8>,
    at: nat,
    data: Seq<u8>,
    offset: nat,
    patch: Seq<u8>,
    patched: Seq<u8>,
)
    requires
        offset <= data.len(),
        patched.len() == if data.len() >= offset + patch.len() {
            data.len()
        } else {
            offset + patch.len()
        },
        forall|i: int|
            0 <= i < patched.len() ==> patched[i] == if offset <= i < offset + patch.len() {
                patch[i - offset]
            } else {
                data[i]
            },
    ensures
        write_at(write_at(bytes, at, data), at + offset, patch) == write_at(bytes, at, patched),
{
}

} // verus!
