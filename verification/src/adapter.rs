//! The filesystem adapter: one regular file over one block stream.
//!
//! The adapter holds the file's attribute record and whether the file may be
//! written. Lookups and attribute queries are answered from the record. A
//! read, a write or a flush becomes an [`Operation`]: it names the next
//! request to make of the stream and is resumed with the stream's answer,
//! until it yields the reply for the transport.

use crate::attr::{blocks_for, ttl, FileAttr, Timespec, TTL_SEC};
use crate::errors::{errmap, mapped, FsError, IoErrorKind};
use crate::robust::{
    read_begin, read_resume, write_begin, write_resume, ReadState, ReadStep, ReadStepView,
    RobustRead, RobustWrite, WriteState, WriteStep, WriteStepView,
};
use crate::stream::{Outcome, OutcomeView, Request};
use vstd::prelude::*;

verus! {

/// Whether the exposed file may be written.
#[derive(Clone, Copy, Debug, PartialEq, Eq, Structural)]
pub enum Access {
    ReadOnly,
    ReadWrite,
}

/// Reply to a lookup: the entry that the name resolved to.
#[derive(Clone, Copy, Debug, PartialEq, Eq, Structural)]
pub struct EntryReply {
    pub ttl: Timespec,
    pub attr: FileAttr,
    pub generation: u64,
}

/// Reply to an attribute query or an attribute change.
#[derive(Clone, Copy, Debug, PartialEq, Eq, Structural)]
pub struct AttrReply {
    pub ttl: Timespec,
    pub attr: FileAttr,
}

/// The changes that an attribute change asks for; `None` leaves a field as it
/// is.
#[derive(Clone, Copy, Debug, PartialEq, Eq)]
pub struct AttrChanges {
    pub mode: Option<u32>,
    pub uid: Option<u32>,
    pub gid: Option<u32>,
    pub size: Option<u64>,
    pub atime: Option<Timespec>,
    pub mtime: Option<Timespec>,
    pub fh: Option<u64>,
    pub crtime: Option<Timespec>,
    pub chgtime: Option<Timespec>,
    pub bkuptime: Option<Timespec>,
    pub flags: Option<u32>,
}

/// Reply to a read, a write or a flush.
#[derive(Debug, PartialEq, Eq)]
pub enum Reply {
    /// The bytes that a read returns.
    Data(Vec<u8>),
    /// The number of bytes that a write has written.
    Written(usize),
    /// A flush went through.
    Flushed,
    /// The operation failed.
    Error(FsError),
}

/// Reply to a read, a write or a flush, as a mathematical value.
pub enum ReplyView {
    Data(Seq<u8>),
    Written(nat),
    Flushed,
    Error(FsError),
}

impl View for Reply {
    type V = ReplyView;

    open spec fn view(&self) -> ReplyView {
        match self {
            Reply::Data(bytes) => ReplyView::Data(bytes@),
            Reply::Written(n) => ReplyView::Written(*n as nat),
            Reply::Flushed => ReplyView::Flushed,
            Reply::Error(code) => ReplyView::Error(*code),
        }
    }
}

/// An operation that waits for the stream, as a mathematical value.
pub enum OperationView {
    /// A read that waits for the seek to its offset.
    SeekToRead { pos: u64, size: nat },
    /// A read that waits for bytes.
    Read(ReadState),
    /// A write that waits for the seek to its offset.
    SeekToWrite { pos: u64, len: nat },
    /// A write that waits for the stream to take bytes.
    Write(WriteState),
    /// A flush that waits for the stream to flush.
    Flush,
}

/// Where an operation stands, as a mathematical value.
pub enum StepView {
    /// The operation waits for the answer to its request.
    Ask(OperationView),
    /// The operation is over with this reply.
    Reply(ReplyView),
}

/// The reply to an operation that does not fit the answer it got.
pub open spec fn misfit() -> StepView {
    StepView::Reply(ReplyView::Error(FsError::InvalidArgument))
}

/// A read operation after a step of its robust read: bytes read are the
/// reply, a failure is replied as its error code.
pub open spec fn read_step(step: ReadStepView) -> StepView {
    match step {
        ReadStepView::Ask(t) => StepView::Ask(OperationView::Read(t)),
        ReadStepView::Done(bytes) => StepView::Reply(ReplyView::Data(bytes)),
        ReadStepView::Failed(kind) => StepView::Reply(ReplyView::Error(mapped(kind))),
    }
}

/// A write operation after a step of its robust write: the count written is
/// the reply, a failure is replied as its error code.
pub open spec fn write_step(step: WriteStepView) -> StepView {
    match step {
        WriteStepView::Ask(t) => StepView::Ask(OperationView::Write(t)),
        WriteStepView::Done(n) => StepView::Reply(ReplyView::Written(n)),
        WriteStepView::Failed(kind) => StepView::Reply(ReplyView::Error(mapped(kind))),
    }
}

impl OperationView {
    /// The operation is one that can be waiting: a robust transfer in it has
    /// part of its buffer left, and sizes are such as a buffer can have.
    pub open spec fn wf(self) -> bool {
        match self {
            OperationView::Read(t) => t.wf(),
            OperationView::Write(t) => t.wf(),
            OperationView::SeekToRead { size, .. } => size <= usize::MAX,
            OperationView::SeekToWrite { len, .. } => len <= usize::MAX,
            OperationView::Flush => true,
        }
    }

    /// The request whose answer the operation waits for.
    pub open spec fn request(self) -> Request {
        match self {
            OperationView::SeekToRead { pos, .. } => Request::Seek(pos),
            OperationView::Read(t) => Request::Read(t.remaining() as usize),
            OperationView::SeekToWrite { pos, .. } => Request::Seek(pos),
            OperationView::Write(t) => Request::Write {
                from: t.done as usize,
                len: t.remaining() as usize,
            },
            OperationView::Flush => Request::Flush,
        }
    }

    /// The answer is one that the operation's request can have: a failure, or
    /// the success of that kind of request, with no more bytes than were
    /// asked for.
    pub open spec fn expects(self, outcome: OutcomeView) -> bool {
        match outcome {
            OutcomeView::Failed(_) => true,
            OutcomeView::Seeked(_) => self is SeekToRead || self is SeekToWrite,
            OutcomeView::Data(chunk) => self matches OperationView::Read(t) && chunk.len()
                <= t.remaining(),
            OutcomeView::Wrote(n) => self matches OperationView::Write(t) && n <= t.remaining(),
            OutcomeView::Flushed => self is Flush,
        }
    }

    /// Where the operation stands after the stream answered its request.
    ///
    /// A failed seek or flush ends the operation with the failure's error
    /// code. After the seek a read or write runs as a robust transfer, whose
    /// outcome is the reply. An answer that the request cannot have ends the
    /// operation with invalid-argument.
    pub open spec fn resume(self, outcome: OutcomeView) -> StepView {
        if !self.expects(outcome) {
            misfit()
        } else {
            match (self, outcome) {
                (OperationView::Read(t), OutcomeView::Data(chunk)) => read_step(
                    read_resume(t, Ok(chunk)),
                ),
                (OperationView::Read(t), OutcomeView::Failed(kind)) => read_step(
                    read_resume(t, Err(kind)),
                ),
                (OperationView::Write(t), OutcomeView::Wrote(n)) => write_step(
                    write_resume(t, Ok(n)),
                ),
                (OperationView::Write(t), OutcomeView::Failed(kind)) => write_step(
                    write_resume(t, Err(kind)),
                ),
                (_, OutcomeView::Failed(kind)) => StepView::Reply(ReplyView::Error(mapped(kind))),
                (OperationView::SeekToRead { size, .. }, _) => read_step(read_begin(size)),
                (OperationView::SeekToWrite { len, .. }, _) => write_step(write_begin(len)),
                (_, _) => StepView::Reply(ReplyView::Flushed),
            }
        }
    }
}

impl StepView {
    /// An upper bound on the number of answers, interruptions of a transfer
    /// not counted, that the operation takes before it replies.
    pub open spec fn distance(self) -> nat {
        match self {
            StepView::Reply(_) => 0,
            StepView::Ask(OperationView::Flush) => 1,
            StepView::Ask(OperationView::Read(t)) => t.remaining(),
            StepView::Ask(OperationView::Write(t)) => t.remaining(),
            StepView::Ask(OperationView::SeekToRead { size, .. }) => size + 1,
            StepView::Ask(OperationView::SeekToWrite { len, .. }) => len + 1,
        }
    }
}

/// An operation that waits stays one that can be waiting when it is resumed.
pub proof fn lemma_resume_keeps_wf(op: OperationView, outcome: OutcomeView)
    requires
        op.wf(),
    ensures
        op.resume(outcome) matches StepView::Ask(next) ==> next.wf(),
{
}

/// Every answer brings an operation nearer to its reply, but for the
/// interruption of a transfer, which leaves the operation as it was.
pub proof fn lemma_resume_makes_progress(op: OperationView, outcome: OutcomeView)
    requires
        op.wf(),
    ensures
        (op is Read || op is Write) && outcome == OutcomeView::Failed(IoErrorKind::Interrupted)
            ==> op.resume(outcome) == StepView::Ask(op),
        !((op is Read || op is Write) && outcome == OutcomeView::Failed(IoErrorKind::Interrupted))
            ==> op.resume(outcome).distance() < StepView::Ask(op).distance(),
{
}

/// How a read at `offset` for `size` bytes starts: a negative offset is
/// refused with invalid-argument before the stream is asked anything;
/// otherwise the stream is to seek to the offset.
pub open spec fn read_start(offset: i64, size: u32) -> StepView {
    if offset < 0 {
        StepView::Reply(ReplyView::Error(FsError::InvalidArgument))
    } else {
        StepView::Ask(OperationView::SeekToRead { pos: offset as u64, size: size as nat })
    }
}

/// How a write of `len` bytes at `offset` starts: a read-only file refuses
/// every write with access-denied; a negative offset is refused with
/// invalid-argument; otherwise the stream is to seek to the offset. A refusal
/// asks nothing of the stream.
pub open spec fn write_start(access: Access, offset: i64, len: nat) -> StepView {
    if access is ReadOnly {
        StepView::Reply(ReplyView::Error(FsError::AccessDenied))
    } else if offset < 0 {
        StepView::Reply(ReplyView::Error(FsError::InvalidArgument))
    } else {
        StepView::Ask(OperationView::SeekToWrite { pos: offset as u64, len })
    }
}

/// How a flush starts: the stream is to flush.
pub open spec fn flush_start() -> StepView {
    StepView::Ask(OperationView::Flush)
}

/// A read, a write or a flush that waits for the stream.
#[derive(Debug, PartialEq, Eq)]
pub enum Operation {
    /// A read that waits for the seek to its offset.
    SeekToRead { pos: u64, size: usize },
    /// A read that waits for bytes.
    Read(RobustRead),
    /// A write that waits for the seek to its offset.
    SeekToWrite { pos: u64, len: usize },
    /// A write that waits for the stream to take bytes.
    Write(RobustWrite),
    /// A flush that waits for the stream to flush.
    Flush,
}

impl View for Operation {
    type V = OperationView;

    open spec fn view(&self) -> OperationView {
        match self {
            Operation::SeekToRead { pos, size } => OperationView::SeekToRead {
                pos: *pos,
                size: *size as nat,
            },
            Operation::Read(t) => OperationView::Read(t@),
            Operation::SeekToWrite { pos, len } => OperationView::SeekToWrite {
                pos: *pos,
                len: *len as nat,
            },
            Operation::Write(t) => OperationView::Write(t@),
            Operation::Flush => OperationView::Flush,
        }
    }
}

/// Where an operation stands.
#[derive(Debug, PartialEq, Eq)]
pub enum Step {
    /// Make the operation's request of the stream and resume the operation
    /// with the answer.
    Ask(Operation),
    /// The operation is over: send this reply to the transport.
    Reply(Reply),
}

impl View for Step {
    type V = StepView;

    open spec fn view(&self) -> StepView {
        match self {
            Step::Ask(op) => StepView::Ask(op@),
            Step::Reply(reply) => StepView::Reply(reply@),
        }
    }
}

/// Where a read operation stands after a step of its robust read.
fn step_of_read(step: ReadStep) -> (next: Step)
    ensures
        next@ == read_step(step@),
{
    match step {
        ReadStep::Ask(t) => Step::Ask(Operation::Read(t)),
        ReadStep::Done(bytes) => Step::Reply(Reply::Data(bytes)),
        ReadStep::Failed(kind) => Step::Reply(Reply::Error(errmap(kind))),
    }
}

/// Where a write operation stands after a step of its robust write.
fn step_of_write(step: WriteStep) -> (next: Step)
    ensures
        next@ == write_step(step@),
{
    match step {
        WriteStep::Ask(t) => Step::Ask(Operation::Write(t)),
        WriteStep::Done(n) => Step::Reply(Reply::Written(n)),
        WriteStep::Failed(kind) => Step::Reply(Reply::Error(errmap(kind))),
    }
}

impl Operation {
    /// The request to make of the stream.
    pub fn request(&self) -> (req: Request)
        ensures
            req == self@.request(),
            self@.wf(),
    {
        match self {
            Operation::SeekToRead { pos, .. } => Request::Seek(*pos),
            Operation::Read(t) => Request::Read(t.remaining()),
            Operation::SeekToWrite { pos, .. } => Request::Seek(*pos),
            Operation::Write(t) => Request::Write { from: t.written(), len: t.remaining() },
            Operation::Flush => Request::Flush,
        }
    }

    /// Goes on after the stream answered the operation's request.
    pub fn resume(self, outcome: Outcome) -> (step: Step)
        ensures
            step@ == self@.resume(outcome@),
    {
        match self {
            Operation::SeekToRead { pos, size } => match outcome {
                Outcome::Seeked(_) => step_of_read(RobustRead::begin(size)),
                Outcome::Failed(kind) => Step::Reply(Reply::Error(errmap(kind))),
                _ => Step::Reply(Reply::Error(FsError::InvalidArgument)),
            },
            Operation::Read(t) => match outcome {
                Outcome::Data(chunk) => {
                    if chunk.len() <= t.remaining() {
                        step_of_read(t.resume(Ok(chunk)))
                    } else {
                        Step::Reply(Reply::Error(FsError::InvalidArgument))
                    }
                },
                Outcome::Failed(kind) => step_of_read(t.resume(Err(kind))),
                _ => Step::Reply(Reply::Error(FsError::InvalidArgument)),
            },
            Operation::SeekToWrite { pos, len } => match outcome {
                Outcome::Seeked(_) => step_of_write(RobustWrite::begin(len)),
                Outcome::Failed(kind) => Step::Reply(Reply::Error(errmap(kind))),
                _ => Step::Reply(Reply::Error(FsError::InvalidArgument)),
            },
            Operation::Write(t) => match outcome {
                Outcome::Wrote(n) => {
                    if n <= t.remaining() {
                        step_of_write(t.resume(Ok(n)))
                    } else {
                        Step::Reply(Reply::Error(FsError::InvalidArgument))
                    }
                },
                Outcome::Failed(kind) => step_of_write(t.resume(Err(kind))),
                _ => Step::Reply(Reply::Error(FsError::InvalidArgument)),
            },
            Operation::Flush => match outcome {
                Outcome::Flushed => Step::Reply(Reply::Flushed),
                Outcome::Failed(kind) => Step::Reply(Reply::Error(errmap(kind))),
                _ => Step::Reply(Reply::Error(FsError::InvalidArgument)),
            },
        }
    }
}

/// The adapter of one block stream: its attribute record, measured once, and
/// whether the file may be written.
#[derive(Debug, PartialEq, Eq)]
pub struct SeekFs {
    attr: FileAttr,
    access: Access,
}

impl SeekFs {
    /// The attribute record of the exposed file.
    pub closed spec fn attr(&self) -> FileAttr {
        self.attr
    }

    /// Whether the exposed file may be written.
    pub closed spec fn access(&self) -> Access {
        self.access
    }

    /// The reply to a lookup: the one entry, with the attribute record.
    pub open spec fn lookup_reply(&self) -> EntryReply {
        EntryReply { ttl: ttl(), attr: self.attr(), generation: 0 }
    }

    /// The reply to an attribute query: the attribute record.
    pub open spec fn getattr_reply(&self) -> AttrReply {
        AttrReply { ttl: ttl(), attr: self.attr() }
    }

    /// The reply to an attribute change: the attribute record, whatever
    /// change was asked for.
    pub open spec fn setattr_reply(&self, changes: AttrChanges) -> AttrReply {
        AttrReply { ttl: ttl(), attr: self.attr() }
    }

    /// The request that measures the stream: a seek to its end.
    pub fn measure() -> (request: Request)
        ensures
            request == Request::SeekEnd,
    {
        Request::SeekEnd
    }

    /// Builds the adapter of a stream from the stream's answer to
    /// `measure()`: the position that the seek reports is the length of the
    /// exposed file. `block_size` is the number of bytes in a block of the
    /// record's block count.
    ///
    /// Building fails only if the seek failed, with the failure's error code,
    /// or if the answer is not one that a seek can have, with
    /// invalid-argument.
    pub fn new(measured: Outcome, block_size: usize, access: Access) -> (made: Result<
        SeekFs,
        FsError,
    >)
        requires
            block_size > 0,
        ensures
            match measured@ {
                OutcomeView::Seeked(len) => {
                    &&& made matches Ok(fs)
                    &&& fs.attr() == FileAttr::describing(len, block_size)
                    &&& fs.attr().size == len
                    &&& fs.attr().blocks == blocks_for(len as nat, block_size as nat)
                    &&& fs.access() == access
                },
                OutcomeView::Failed(kind) => made matches Err(code) && code == mapped(kind),
                _ => made matches Err(code) && code == FsError::InvalidArgument,
            },
    {
        match measured {
            Outcome::Seeked(len) => Ok(SeekFs { attr: FileAttr::new(len, block_size), access }),
            Outcome::Failed(kind) => Err(errmap(kind)),
            _ => Err(FsError::InvalidArgument),
        }
    }

    /// Resolves a name. Every name in every directory resolves to the one
    /// exposed file.
    pub fn lookup(&self, parent: u64, name: &[u8]) -> (reply: EntryReply)
        ensures
            reply == self.lookup_reply(),
    {
        EntryReply { ttl: Timespec { sec: TTL_SEC, nsec: 0 }, attr: self.attr, generation: 0 }
    }

    /// Reports the attribute record, whatever inode is asked for.
    pub fn getattr(&self, ino: u64) -> (reply: AttrReply)
        ensures
            reply == self.getattr_reply(),
    {
        AttrReply { ttl: Timespec { sec: TTL_SEC, nsec: 0 }, attr: self.attr }
    }

    /// Accepts an attribute change without making it, and reports the
    /// attribute record as it was.
    pub fn setattr(&self, ino: u64, changes: &AttrChanges) -> (reply: AttrReply)
        ensures
            reply == self.setattr_reply(*changes),
            reply == self.getattr_reply(),
    {
        AttrReply { ttl: Timespec { sec: TTL_SEC, nsec: 0 }, attr: self.attr }
    }

    /// Starts a read of up to `size` bytes at `offset`.
    pub fn read(&self, ino: u64, fh: u64, offset: i64, size: u32) -> (step: Step)
        ensures
            step@ == read_start(offset, size),
            offset < 0 ==> step@ == StepView::Reply(ReplyView::Error(FsError::InvalidArgument)),
            offset >= 0 ==> step@ == StepView::Ask(
                OperationView::SeekToRead { pos: offset as u64, size: size as nat },
            ),
    {
        if offset < 0 {
            Step::Reply(Reply::Error(FsError::InvalidArgument))
        } else {
            Step::Ask(Operation::SeekToRead { pos: offset as u64, size: size as usize })
        }
    }

    /// Starts a write of `data` at `offset`.
    pub fn write(&self, ino: u64, fh: u64, offset: i64, data: &[u8], flags: u32) -> (step: Step)
        ensures
            step@ == write_start(self.access(), offset, data@.len()),
            self.access() is ReadOnly ==> step@ == StepView::Reply(
                ReplyView::Error(FsError::AccessDenied),
            ),
            self.access() is ReadWrite && offset < 0 ==> step@ == StepView::Reply(
                ReplyView::Error(FsError::InvalidArgument),
            ),
            self.access() is ReadWrite && offset >= 0 ==> step@ == StepView::Ask(
                OperationView::SeekToWrite { pos: offset as u64, len: data@.len() },
            ),
    {
        match self.access {
            Access::ReadOnly => Step::Reply(Reply::Error(FsError::AccessDenied)),
            Access::ReadWrite => {
                if offset < 0 {
                    Step::Reply(Reply::Error(FsError::InvalidArgument))
                } else {
                    Step::Ask(Operation::SeekToWrite { pos: offset as u64, len: data.len() })
                }
            },
        }
    }

    /// Starts a flush.
    pub fn flush(&self, ino: u64, fh: u64, lock_owner: u64) -> (step: Step)
        ensures
            step@ == flush_start(),
    {
        Step::Ask(Operation::Flush)
    }
}

/// The record of an adapter holds the length that the adapter was built
/// with, and as many blocks as hold that many bytes; lookups and attribute
/// queries report that record. Operations only borrow the adapter, so no read
/// or write, however far it reaches, changes what is reported.
pub proof fn lemma_reported_size_is_measured_length(fs: SeekFs, len: u64, block_size: usize)
    requires
        block_size > 0,
        fs.attr() == FileAttr::describing(len, block_size),
    ensures
        fs.getattr_reply().attr.size == len,
        fs.lookup_reply().attr.size == len,
        fs.getattr_reply().attr.blocks == blocks_for(len as nat, block_size as nat),
{
    crate::attr::lemma_blocks_fit(len as nat, block_size as nat);
}

/// An attribute change changes nothing: whatever it asks for, its reply is
/// the attribute record as an attribute query reports it, before the change
/// and after it.
pub proof fn lemma_setattr_changes_nothing(fs: SeekFs, changes: AttrChanges)
    ensures
        fs.setattr_reply(changes) == fs.getattr_reply(),
        fs.setattr_reply(changes).attr == fs.attr(),
{
}

} // verus!
