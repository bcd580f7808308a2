//! What the adapter asks of the block stream, and what the stream answers.

use crate::errors::IoErrorKind;
use vstd::prelude::*;

verus! {

/// One call on the block stream.
#[derive(Clone, Copy, Debug, PartialEq, Eq, Structural)]
pub enum Request {
    /// Seek to the end of the stream. The position that the stream reports
    /// is its length.
    SeekEnd,
    /// Seek to this position, counted from the start of the stream.
    Seek(u64),
    /// Read up to this many bytes at the stream's position.
    Read(usize),
    /// Write bytes `from .. from + len` of the data of the write operation at
    /// the stream's position.
    Write { from: usize, len: usize },
    /// Flush what the stream has buffered.
    Flush,
}

/// The stream's answer to one call.
#[derive(Debug, PartialEq, Eq)]
pub enum Outcome {
    /// A seek succeeded and the stream stands at this position.
    Seeked(u64),
    /// A read succeeded with these bytes; none marks the end of the data.
    Data(Vec<u8>),
    /// A write succeeded and the stream took this many bytes from the front
    /// of what it was handed.
    Wrote(usize),
    /// A flush succeeded.
    Flushed,
    /// The call failed.
    Failed(IoErrorKind),
}

/// The stream's answer to one call, as a mathematical value.
pub enum OutcomeView {
    Seeked(u64),
    Data(Seq<u8>),
    Wrote(usize),
    Flushed,
    Failed(IoErrorKind),
}

impl View for Outcome {
    type V = OutcomeView;

    open spec fn view(&self) -> OutcomeView {
        match self {
            Outcome::Seeked(pos) => OutcomeView::Seeked(*pos),
            Outcome::Data(bytes) => OutcomeView::Data(bytes@),
            Outcome::Wrote(n) => OutcomeView::Wrote(*n),
            Outcome::Flushed => OutcomeView::Flushed,
            Outcome::Failed(kind) => OutcomeView::Failed(*kind),
        }
    }
}

} // verus!
