//! The errors of the adapter.

use vstd::prelude::*;

verus! {

/// What can go wrong in an operation of the adapter.
#[derive(Debug, PartialEq, Eq)]
pub enum Error<E> {
    /// The underlying stream failed; its error is passed on as it came.
    Io(E),
    /// An exact read met the end of the stream before the destination was full.
    UnexpectedEof,
    /// A relative seek asked for an offset before the start of the stream.
    InvalidSeek,
    /// The underlying stream accepted fewer bytes than it had to, without failing.
    IncompleteWrite,
}

} // verus!
