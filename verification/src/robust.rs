//! Robust transfers: reading or writing a whole buffer through a stream that
//! may transfer less than it was asked to, or be interrupted.
//!
//! A transfer performs no I/O. It says how much to ask of the stream next and
//! is resumed with what the stream answered.

use crate::errors::IoErrorKind;
use vstd::prelude::*;

verus! {

/// A robust read in progress, as a mathematical value.
pub struct ReadState {
    /// Size of the destination buffer.
    pub want: nat,
    /// The bytes read so far: the filled front of the buffer.
    pub got: Seq<u8>,
}

impl ReadState {
    /// Part of the buffer is still unfilled, and the buffer is of a size
    /// that a buffer can have.
    pub open spec fn wf(self) -> bool {
        self.got.len() < self.want <= usize::MAX
    }

    /// Size of the unfilled rest of the buffer.
    pub open spec fn remaining(self) -> nat {
        (self.want - self.got.len()) as nat
    }
}

/// Where a robust read stands after a step, as a mathematical value.
pub enum ReadStepView {
    /// The stream is to be asked for up to `remaining()` more bytes.
    Ask(ReadState),
    /// The read is over and these bytes were read.
    Done(Seq<u8>),
    /// The stream failed, and the read with it.
    Failed(IoErrorKind),
}

/// A robust read into a buffer of `want` bytes, before anything was read.
/// An empty buffer asks nothing of the stream.
pub open spec fn read_begin(want: nat) -> ReadStepView {
    if want == 0 {
        ReadStepView::Done(Seq::empty())
    } else {
        ReadStepView::Ask(ReadState { want, got: Seq::empty() })
    }
}

/// How a robust read goes on after the stream answered a read request.
///
/// Bytes that arrive are added to those read before; the read is over once
/// the buffer is full. An empty answer marks the end of the data: the read is
/// over with what it has, which is no failure. An interruption changes
/// nothing and the request is repeated. Any other failure ends the read.
pub open spec fn read_resume(t: ReadState, outcome: Result<Seq<u8>, IoErrorKind>) -> ReadStepView {
    match outcome {
        Ok(chunk) => if chunk.len() == 0 {
            ReadStepView::Done(t.got)
        } else if t.got.len() + chunk.len() >= t.want {
            ReadStepView::Done(t.got + chunk)
        } else {
            ReadStepView::Ask(ReadState { want: t.want, got: t.got + chunk })
        },
        Err(IoErrorKind::Interrupted) => ReadStepView::Ask(t),
        Err(kind) => ReadStepView::Failed(kind),
    }
}

/// The answer to a read request with its bytes as a sequence.
pub open spec fn chunk_view(outcome: Result<Vec<u8>, IoErrorKind>) -> Result<
    Seq<u8>,
    IoErrorKind,
> {
    match outcome {
        Ok(chunk) => Ok(chunk@),
        Err(kind) => Err(kind),
    }
}

/// A robust read that still has part of its buffer to fill.
#[derive(Debug, PartialEq, Eq)]
pub struct RobustRead {
    want: usize,
    got: Vec<u8>,
}

impl View for RobustRead {
    type V = ReadState;

    closed spec fn view(&self) -> ReadState {
        ReadState { want: self.want as nat, got: self.got@ }
    }
}

/// Where a robust read stands after a step.
#[derive(Debug, PartialEq, Eq)]
pub enum ReadStep {
    /// Ask the stream to read up to `remaining()` bytes, then resume.
    Ask(RobustRead),
    /// The read is over and these bytes were read.
    Done(Vec<u8>),
    /// The stream failed, and the read with it.
    Failed(IoErrorKind),
}

impl View for ReadStep {
    type V = ReadStepView;

    open spec fn view(&self) -> ReadStepView {
        match self {
            ReadStep::Ask(t) => ReadStepView::Ask(t@),
            ReadStep::Done(bytes) => ReadStepView::Done(bytes@),
            ReadStep::Failed(kind) => ReadStepView::Failed(*kind),
        }
    }
}

impl RobustRead {
    #[verifier::type_invariant]
    spec fn inv(self) -> bool {
        self.got@.len() < self.want
    }

    /// Starts a robust read into a buffer of `want` bytes.
    pub fn begin(want: usize) -> (step: ReadStep)
        ensures
            step@ == read_begin(want as nat),
    {
        if want == 0 {
            ReadStep::Done(Vec::new())
        } else {
            ReadStep::Ask(RobustRead { want, got: Vec::new() })
        }
    }

    /// Size of the unfilled rest of the buffer: how many bytes to ask of the
    /// stream.
    pub fn remaining(&self) -> (n: usize)
        ensures
            n == self@.remaining(),
            n > 0,
            self@.wf(),
    {
        proof {
            use_type_invariant(self);
        }
        self.want - self.got.len()
    }

    /// Goes on after the stream answered the read request: `Ok` with the bytes
    /// it read, or `Err` with the category of its failure.
    pub fn resume(self, outcome: Result<Vec<u8>, IoErrorKind>) -> (step: ReadStep)
        requires
            outcome matches Ok(chunk) ==> chunk@.len() <= self@.remaining(),
        ensures
            step@ == read_resume(self@, chunk_view(outcome)),
    {
        proof {
            use_type_invariant(&self);
        }
        match outcome {
            Ok(chunk) => {
                if chunk.len() == 0 {
                    ReadStep::Done(self.got)
                } else {
                    let want = self.want;
                    let mut got = self.got;
                    let mut chunk = chunk;
                    got.append(&mut chunk);
                    if got.len() == want {
                        ReadStep::Done(got)
                    } else {
                        ReadStep::Ask(RobustRead { want, got })
                    }
                }
            },
            Err(IoErrorKind::Interrupted) => ReadStep::Ask(self),
            Err(kind) => ReadStep::Failed(kind),
        }
    }
}

/// A robust write in progress, as a mathematical value.
pub struct WriteState {
    /// Size of the source buffer.
    pub total: nat,
    /// How many bytes from its front the stream has taken.
    pub done: nat,
}

impl WriteState {
    /// Part of the buffer is still unwritten, and the buffer is of a size
    /// that a buffer can have.
    pub open spec fn wf(self) -> bool {
        self.done < self.total <= usize::MAX
    }

    /// Size of the unwritten rest of the buffer.
    pub open spec fn remaining(self) -> nat {
        (self.total - self.done) as nat
    }
}

/// Where a robust write stands after a step, as a mathematical value.
pub enum WriteStepView {
    /// The stream is to be handed the unwritten rest of the buffer.
    Ask(WriteState),
    /// The write is over and the stream took this many bytes.
    Done(nat),
    /// The stream failed, and the write with it.
    Failed(IoErrorKind),
}

/// A robust write of a buffer of `total` bytes, before anything was written.
/// An empty buffer asks nothing of the stream.
pub open spec fn write_begin(total: nat) -> WriteStepView {
    if total == 0 {
        WriteStepView::Done(0)
    } else {
        WriteStepView::Ask(WriteState { total, done: 0 })
    }
}

/// How a robust write goes on after the stream answered a write request.
///
/// The bytes that the stream took are counted; the write is over once it took
/// them all. A stream that takes nothing ends the write with the count so
/// far, which is no failure. An interruption changes nothing and the request
/// is repeated. Any other failure ends the write.
pub open spec fn write_resume(t: WriteState, outcome: Result<usize, IoErrorKind>) -> WriteStepView {
    match outcome {
        Ok(n) => if n == 0 {
            WriteStepView::Done(t.done)
        } else if t.done + n >= t.total {
            WriteStepView::Done(t.done + n as nat)
        } else {
            WriteStepView::Ask(WriteState { total: t.total, done: t.done + n as nat })
        },
        Err(IoErrorKind::Interrupted) => WriteStepView::Ask(t),
        Err(kind) => WriteStepView::Failed(kind),
    }
}

/// A robust write that still has part of its buffer to hand over.
#[derive(Debug, PartialEq, Eq)]
pub struct RobustWrite {
    total: usize,
    done: usize,
}

impl View for RobustWrite {
    type V = WriteState;

    closed spec fn view(&self) -> WriteState {
        WriteState { total: self.total as nat, done: self.done as nat }
    }
}

/// Where a robust write stands after a step.
#[derive(Debug, PartialEq, Eq)]
pub enum WriteStep {
    /// Hand the stream the buffer from `written()` on, then resume.
    Ask(RobustWrite),
    /// The write is over and the stream took this many bytes.
    Done(usize),
    /// The stream failed, and the write with it.
    Failed(IoErrorKind),
}

impl View for WriteStep {
    type V = WriteStepView;

    open spec fn view(&self) -> WriteStepView {
        match self {
            WriteStep::Ask(t) => WriteStepView::Ask(t@),
            WriteStep::Done(n) => WriteStepView::Done(*n as nat),
            WriteStep::Failed(kind) => WriteStepView::Failed(*kind),
        }
    }
}

impl RobustWrite {
    #[verifier::type_invariant]
    spec fn inv(self) -> bool {
        self.done < self.total
    }

    /// Starts a robust write of a buffer of `total` bytes.
    pub fn begin(total: usize) -> (step: WriteStep)
        ensures
            step@ == write_begin(total as nat),
    {
        if total == 0 {
            WriteStep::Done(0)
        } else {
            WriteStep::Ask(RobustWrite { total, done: 0 })
        }
    }

    /// How many bytes the stream has taken: where the unwritten rest of the
    /// buffer starts.
    pub fn written(&self) -> (n: usize)
        ensures
            n == self@.done,
            self@.wf(),
    {
        proof {
            use_type_invariant(self);
        }
        self.done
    }

    /// Size of the unwritten rest of the buffer.
    pub fn remaining(&self) -> (n: usize)
        ensures
            n == self@.remaining(),
            n > 0,
            self@.wf(),
    {
        proof {
            use_type_invariant(self);
        }
        self.total - self.done
    }

    /// Goes on after the stream answered the write request: `Ok` with the
    /// number of bytes it took, or `Err` with the category of its failure.
    pub fn resume(self, outcome: Result<usize, IoErrorKind>) -> (step: WriteStep)
        requires
            outcome matches Ok(n) ==> n <= self@.remaining(),
        ensures
            step@ == write_resume(self@, outcome),
    {
        proof {
            use_type_invariant(&self);
        }
        match outcome {
            Ok(n) => {
                if n == 0 {
                    WriteStep::Done(self.done)
                } else {
                    let done = self.done + n;
                    if done == self.total {
                        WriteStep::Done(done)
                    } else {
                        WriteStep::Ask(RobustWrite { total: self.total, done })
                    }
                }
            },
            Err(IoErrorKind::Interrupted) => WriteStep::Ask(self),
            Err(kind) => WriteStep::Failed(kind),
        }
    }
}

} // verus!
