//! The core of a single-file filesystem over a seekable block stream.
//!
//! A filesystem transport asks for attributes, reads, writes and flushes of
//! one regular file; the file's bytes live in a block stream that can seek,
//! read, write and flush. This crate decides what is asked of the stream and
//! what is replied to the transport. It performs no I/O itself: an operation
//! is a value that names the next stream request, and is resumed with the
//! stream's answer until it yields the reply.
//!
//! - [`errors`]: failure categories of the stream, error codes of the
//!   transport, and the mapping between them.
//! - [`attr`]: the attribute record of the exposed file.
//! - [`stream`]: the requests made of the stream and its answers.
//! - [`robust`]: transfers that go on after short reads, short writes and
//!   interruptions.
//! - [`adapter`]: the adapter and its operations.
//! - [`model`]: a stream as a mathematical value, and what reads and writes
//!   do when they run against it.

pub mod adapter;
pub mod attr;
pub mod errors;
pub mod model;
pub mod robust;
pub mod stream;
