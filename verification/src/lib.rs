//! Buffered reading, writing and seeking over a single random-access byte stream.
//!
//! [`BufReaderWriter`] keeps one fixed-size [`Buffer`] between its caller and a
//! [`Stream`]. Reads are served from the buffer while it holds unread bytes, writes
//! are collected in it until it is full, and a seek that lands among the buffered
//! bytes only moves a cursor. One cursor is shared by all three operations.
//!
//! The contracts speak of two things. The view of a `BufReaderWriter` is what its
//! caller perceives: the contents of the stream as if every write had reached it,
//! and a position in them. Beside it stand the stream and the buffer themselves,
//! and the record of the calls that were made on the stream, for the callers who
//! care when the stream is touched.
//!
//! * [`stream`] holds the interface that the adapter asks of its stream, and
//!   [`memory`] a stream in memory that provides it.
//! * [`model`] says what writing at an offset does to a sequence of bytes.
//! * [`buffer`] holds the buffer and the decisions it takes for each request.
//! * [`adapter`] holds the adapter, which carries the decisions out.
//! * [`laws`] relates the operations of the adapter to each other.
//!
//! A failure of the stream says nothing about the state the stream is left in.
//! After one, the adapter's own bookkeeping is still sound, but no longer known to
//! agree with the stream; reading, writing and seeking ask for that agreement, and
//! [`BufReaderWriter::reset`] makes it anew. No failure is the adapter's own
//! doing: but for a seek to before the start and an exact read that meets the end,
//! each is the answer of the stream to the last call made on it.

pub mod adapter;
pub mod buffer;
pub mod error;
pub mod laws;
pub mod memory;
pub mod model;
pub mod stream;

pub use adapter::{BufReaderWriter, LogicalView, DEFAULT_CAPACITY};
pub use buffer::{Buffer, BufferView, ReadCommand, ReadExactCommand, WriteAllCommand};
pub use error::Error;
pub use memory::{MemoryStream, OutOfRange};
pub use stream::{Call, Kind, ReadStream, SeekFrom, Stream};
