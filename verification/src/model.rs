//! A block stream as a mathematical value, and what the adapter's operations
//! do when they run against one.
//!
//! The stream of this model is a device of fixed length: it reads and writes
//! within its bytes and transfers nothing at or past its end. It may transfer
//! less than it was asked to, and any call may fail.

use crate::adapter::{
    read_start, write_start, Access, OperationView, ReplyView, SeekFs, StepView,
};
use crate::attr::FileAttr;
use crate::errors::mapped;
use crate::robust::{ReadState, WriteState};
use crate::stream::{OutcomeView, Request};
use vstd::prelude::*;

verus! {

/// `content` with `bytes` written over it from position `at` on. The length
/// stays: bytes that would fall past the end are not written.
pub open spec fn overwrite(content: Seq<u8>, at: nat, bytes: Seq<u8>) -> Seq<u8> {
    Seq::new(
        content.len(),
        |i: int|
            if at <= i < at + bytes.len() {
                bytes[i - at]
            } else {
                content[i]
            },
    )
}

/// The state of a block stream: its bytes and the position of its next
/// transfer.
pub struct Device {
    pub content: Seq<u8>,
    pub pos: nat,
}

impl Device {
    /// Number of bytes from position `start` to the end; none past the end.
    pub open spec fn span(self, start: nat) -> nat {
        if start <= self.content.len() {
            (self.content.len() - start) as nat
        } else {
            0
        }
    }

    /// The bytes at `start .. start + count`, as far as the stream has them.
    pub open spec fn range(self, start: nat, count: nat) -> Seq<u8> {
        if self.span(start) == 0 {
            Seq::empty()
        } else if count <= self.span(start) {
            self.content.subrange(start as int, (start + count) as int)
        } else {
            self.content.subrange(start as int, (start + self.span(start)) as int)
        }
    }

    /// Whether `outcome` is an answer that this stream can give to `request`,
    /// where `data` is the data of the write operation, if one is running.
    ///
    /// Any call may fail. A seek ends at the position asked for, a seek to
    /// the end at the stream's length. A read gives
    /// the bytes at the position, no more than were asked for and no more than
    /// there are; it gives none only if none were asked for or the position
    /// is at or past the end. A write takes bytes from the front of what it is
    /// handed, no more than fit before the end; it takes none only if it was
    /// handed none or the position is at or past the end.
    pub open spec fn answers(self, data: Seq<u8>, request: Request, outcome: OutcomeView) -> bool {
        match outcome {
            OutcomeView::Failed(_) => true,
            OutcomeView::Seeked(pos) => {
                ||| request == Request::Seek(pos)
                ||| request == Request::SeekEnd && pos == self.content.len()
            },
            OutcomeView::Data(chunk) => {
                &&& request matches Request::Read(n)
                &&& chunk.len() <= n
                &&& chunk.len() <= self.span(self.pos)
                &&& chunk == self.range(self.pos, chunk.len())
                &&& chunk.len() == 0 ==> n == 0 || self.span(self.pos) == 0
            },
            OutcomeView::Wrote(k) => {
                &&& request matches Request::Write { from, len }
                &&& from + len <= data.len()
                &&& k <= len
                &&& k <= self.span(self.pos)
                &&& k == 0 ==> len == 0 || self.span(self.pos) == 0
            },
            OutcomeView::Flushed => request == Request::Flush,
        }
    }

    /// The stream after it gave `outcome` to `request`. A seek moves the
    /// position; a read moves it past the bytes read; a write puts the bytes
    /// taken in place and moves the position past them. A flush and a failed
    /// call leave the stream as it was.
    pub open spec fn after(self, data: Seq<u8>, request: Request, outcome: OutcomeView) -> Device {
        match (outcome, request) {
            (OutcomeView::Seeked(pos), _) => Device { content: self.content, pos: pos as nat },
            (OutcomeView::Data(chunk), _) => Device {
                content: self.content,
                pos: self.pos + chunk.len(),
            },
            (OutcomeView::Wrote(k), Request::Write { from, len }) => Device {
                content: overwrite(self.content, self.pos, data.subrange(from as int, from + k)),
                pos: self.pos + k as nat,
            },
            _ => self,
        }
    }
}

/// Where an operation stands after it was resumed with each of `outcomes` in
/// turn, starting from `step`.
pub open spec fn run(step: StepView, outcomes: Seq<OutcomeView>) -> StepView
    decreases outcomes.len(),
{
    if outcomes.len() == 0 {
        step
    } else {
        match step {
            StepView::Ask(op) => run(op.resume(outcomes.first()), outcomes.drop_first()),
            StepView::Reply(_) => step,
        }
    }
}

/// Whether `outcomes` are the answers of the stream `device`, one after the
/// other, to the requests that the operation makes from `step` on. No answer
/// comes after the operation's reply.
pub open spec fn served(
    device: Device,
    data: Seq<u8>,
    step: StepView,
    outcomes: Seq<OutcomeView>,
) -> bool
    decreases outcomes.len(),
{
    if outcomes.len() == 0 {
        true
    } else {
        match step {
            StepView::Ask(op) => {
                &&& device.answers(data, op.request(), outcomes.first())
                &&& served(
                    device.after(data, op.request(), outcomes.first()),
                    data,
                    op.resume(outcomes.first()),
                    outcomes.drop_first(),
                )
            },
            StepView::Reply(_) => false,
        }
    }
}

/// The stream `device` after it gave `outcomes` to the requests that the
/// operation makes from `step` on.
pub open spec fn left(
    device: Device,
    data: Seq<u8>,
    step: StepView,
    outcomes: Seq<OutcomeView>,
) -> Device
    decreases outcomes.len(),
{
    if outcomes.len() == 0 {
        device
    } else {
        match step {
            StepView::Ask(op) => left(
                device.after(data, op.request(), outcomes.first()),
                data,
                op.resume(outcomes.first()),
                outcomes.drop_first(),
            ),
            StepView::Reply(_) => device,
        }
    }
}

/// Whether `reply` reports the failure that is the last of `outcomes`.
pub open spec fn reports_last_failure(reply: ReplyView, outcomes: Seq<OutcomeView>) -> bool {
    &&& outcomes.len() > 0
    &&& outcomes.last() matches OutcomeView::Failed(kind)
    &&& reply == ReplyView::Error(mapped(kind))
}

/// An answer that a stream can give to an operation's request is one that the
/// operation expects.
pub proof fn lemma_answer_is_expected(
    device: Device,
    data: Seq<u8>,
    op: OperationView,
    outcome: OutcomeView,
)
    requires
        op.wf(),
        device.answers(data, op.request(), outcome),
    ensures
        op.expects(outcome),
{
}

/// The read law for a read that is under way: it has read the bytes from
/// `start` up to the stream's position, and goes on from there.
proof fn lemma_read_run(device: Device, start: nat, t: ReadState, outcomes: Seq<OutcomeView>)
    requires
        t.wf(),
        device.pos == start + t.got.len(),
        t.got.len() <= device.span(start),
        t.got == device.range(start, t.got.len()),
        served(device, Seq::empty(), StepView::Ask(OperationView::Read(t)), outcomes),
        run(StepView::Ask(OperationView::Read(t)), outcomes) is Reply,
    ensures
        match run(StepView::Ask(OperationView::Read(t)), outcomes) {
            StepView::Reply(ReplyView::Data(bytes)) => bytes == device.range(start, t.want),
            StepView::Reply(reply) => reports_last_failure(reply, outcomes),
            StepView::Ask(_) => false,
        },
        left(device, Seq::empty(), StepView::Ask(OperationView::Read(t)), outcomes).content
            == device.content,
    decreases outcomes.len(),
{
    let op = OperationView::Read(t);
    let data = Seq::<u8>::empty();
    let first = outcomes.first();
    let rest = outcomes.drop_first();
    let next = op.resume(first);
    let moved = device.after(data, op.request(), first);
    lemma_answer_is_expected(device, data, op, first);
    assert(served(moved, data, next, rest));
    assert(run(StepView::Ask(op), outcomes) == run(next, rest));
    assert(left(device, data, StepView::Ask(op), outcomes) == left(moved, data, next, rest));
    match next {
        StepView::Ask(OperationView::Read(t2)) => {
            if rest.len() > 0 {
                assert(outcomes.last() == rest.last());
            }
            match first {
                OutcomeView::Data(chunk) => {
                    assert(t2.got == t.got + chunk);
                    assert(t2.got =~= moved.range(start, t2.got.len()));
                },
                _ => {},
            }
            lemma_read_run(moved, start, t2, rest);
        },
        StepView::Ask(_) => {},
        StepView::Reply(reply) => {
            assert(rest.len() == 0);
            assert(outcomes.last() == first);
            match first {
                OutcomeView::Data(chunk) => {
                    if chunk.len() > 0 {
                        assert(t.got + chunk =~= device.range(start, t.want));
                    } else {
                        assert(t.got =~= device.range(start, t.want));
                    }
                },
                _ => {},
            }
        },
    }
}

/// Reading returns the stream's bytes at the offset: as many as were asked
/// for, or as many as there are before the end if those are fewer.
///
/// Take a read of `size` bytes at an `offset` that is not negative, and let
/// the stream `device` give the answers `outcomes` to the requests that the
/// read makes, until the read replies. Then the reply is the bytes of the
/// stream at `offset`, `size` of them or all up to the end, unless the last
/// answer was a failure: then the reply is that failure's error code. The
/// stream's bytes are as they were.
pub proof fn lemma_read_returns_stream_content(
    device: Device,
    offset: i64,
    size: u32,
    outcomes: Seq<OutcomeView>,
)
    requires
        0 <= offset,
        served(device, Seq::empty(), read_start(offset, size), outcomes),
        run(read_start(offset, size), outcomes) is Reply,
    ensures
        match run(read_start(offset, size), outcomes) {
            StepView::Reply(ReplyView::Data(bytes)) => {
                &&& bytes == device.range(offset as nat, size as nat)
                &&& offset <= device.content.len() ==> bytes.len() == vstd::math::min(
                    size as int,
                    device.content.len() - offset,
                )
            },
            StepView::Reply(reply) => reports_last_failure(reply, outcomes),
            StepView::Ask(_) => false,
        },
        left(device, Seq::empty(), read_start(offset, size), outcomes).content == device.content,
{
    let data = Seq::<u8>::empty();
    let op = OperationView::SeekToRead { pos: offset as u64, size: size as nat };
    let first = outcomes.first();
    let rest = outcomes.drop_first();
    let next = op.resume(first);
    let moved = device.after(data, op.request(), first);
    assert(read_start(offset, size) == StepView::Ask(op));
    lemma_answer_is_expected(device, data, op, first);
    assert(served(moved, data, next, rest));
    assert(run(StepView::Ask(op), outcomes) == run(next, rest));
    assert(left(device, data, StepView::Ask(op), outcomes) == left(moved, data, next, rest));
    match next {
        StepView::Ask(OperationView::Read(t)) => {
            if rest.len() > 0 {
                assert(outcomes.last() == rest.last());
            }
            assert(t.got =~= moved.range(offset as nat, 0));
            lemma_read_run(moved, offset as nat, t, rest);
        },
        StepView::Ask(_) => {},
        StepView::Reply(reply) => {
            assert(rest.len() == 0);
            assert(outcomes.last() == first);
            if size == 0 {
                assert(Seq::<u8>::empty() =~= device.range(offset as nat, 0));
            }
        },
    }
}

/// The write law for a write that is under way: the stream `device` is the
/// stream `origin` with the bytes written so far in place from `start` on,
/// and the write goes on from the stream's position.
proof fn lemma_write_run(
    origin: Device,
    device: Device,
    start: nat,
    data: Seq<u8>,
    t: WriteState,
    outcomes: Seq<OutcomeView>,
)
    requires
        t.wf(),
        t.total == data.len(),
        device.pos == start + t.done,
        t.done <= origin.span(start),
        device.content == overwrite(origin.content, start, data.subrange(0, t.done as int)),
        served(device, data, StepView::Ask(OperationView::Write(t)), outcomes),
        run(StepView::Ask(OperationView::Write(t)), outcomes) is Reply,
    ensures
        match run(StepView::Ask(OperationView::Write(t)), outcomes) {
            StepView::Reply(ReplyView::Written(n)) => {
                &&& n == vstd::math::min(data.len() as int, origin.span(start) as int)
                &&& left(
                    device,
                    data,
                    StepView::Ask(OperationView::Write(t)),
                    outcomes,
                ).content == overwrite(origin.content, start, data.subrange(0, n as int))
            },
            StepView::Reply(reply) => reports_last_failure(reply, outcomes),
            StepView::Ask(_) => false,
        },
        left(device, data, StepView::Ask(OperationView::Write(t)), outcomes).content.len()
            == origin.content.len(),
    decreases outcomes.len(),
{
    let op = OperationView::Write(t);
    let first = outcomes.first();
    let rest = outcomes.drop_first();
    let next = op.resume(first);
    let moved = device.after(data, op.request(), first);
    lemma_answer_is_expected(device, data, op, first);
    assert(served(moved, data, next, rest));
    assert(run(StepView::Ask(op), outcomes) == run(next, rest));
    assert(left(device, data, StepView::Ask(op), outcomes) == left(moved, data, next, rest));
    assert(device.content.len() == origin.content.len());
    assert(device.span(device.pos) == origin.span(start) - t.done);
    match first {
        OutcomeView::Wrote(k) => {
            assert(moved.content =~= overwrite(
                origin.content,
                start,
                data.subrange(0, t.done + k),
            ));
        },
        _ => {
            assert(moved == device);
        },
    }
    match next {
        StepView::Ask(OperationView::Write(t2)) => {
            if rest.len() > 0 {
                assert(outcomes.last() == rest.last());
            }
            lemma_write_run(origin, moved, start, data, t2, rest);
        },
        StepView::Ask(_) => {},
        StepView::Reply(reply) => {
            assert(rest.len() == 0);
            assert(outcomes.last() == first);
        },
    }
}

/// Writing puts the data into the stream at the offset, as much of it as fits
/// before the stream's end, and replies how much that was.
///
/// Take a write of `data` at an `offset` that is not negative, to a file that
/// may be written, and let the stream `device` give the answers `outcomes` to
/// the requests that the write makes, until the write replies. Then the reply
/// is the length of `data`, or the number of bytes from `offset` to the end
/// if those are fewer, and the stream holds that many bytes of `data` from
/// `offset` on and is otherwise as it was; unless the last answer was a
/// failure: then the reply is that failure's error code. The stream's length
/// is as it was in either case.
pub proof fn lemma_write_puts_data_in_stream(
    device: Device,
    offset: i64,
    data: Seq<u8>,
    outcomes: Seq<OutcomeView>,
)
    requires
        0 <= offset,
        data.len() <= usize::MAX,
        served(device, data, write_start(Access::ReadWrite, offset, data.len()), outcomes),
        run(write_start(Access::ReadWrite, offset, data.len()), outcomes) is Reply,
    ensures
        match run(write_start(Access::ReadWrite, offset, data.len()), outcomes) {
            StepView::Reply(ReplyView::Written(n)) => {
                &&& n == vstd::math::min(data.len() as int, device.span(offset as nat) as int)
                &&& left(
                    device,
                    data,
                    write_start(Access::ReadWrite, offset, data.len()),
                    outcomes,
                ).content == overwrite(device.content, offset as nat, data.subrange(0, n as int))
            },
            StepView::Reply(reply) => reports_last_failure(reply, outcomes),
            StepView::Ask(_) => false,
        },
        left(
            device,
            data,
            write_start(Access::ReadWrite, offset, data.len()),
            outcomes,
        ).content.len() == device.content.len(),
{
    let op = OperationView::SeekToWrite { pos: offset as u64, len: data.len() };
    let first = outcomes.first();
    let rest = outcomes.drop_first();
    let next = op.resume(first);
    let moved = device.after(data, op.request(), first);
    assert(write_start(Access::ReadWrite, offset, data.len()) == StepView::Ask(op));
    lemma_answer_is_expected(device, data, op, first);
    assert(served(moved, data, next, rest));
    assert(run(StepView::Ask(op), outcomes) == run(next, rest));
    assert(left(device, data, StepView::Ask(op), outcomes) == left(moved, data, next, rest));
    assert(device.content =~= overwrite(device.content, offset as nat, data.subrange(0, 0)));
    match next {
        StepView::Ask(OperationView::Write(t)) => {
            if rest.len() > 0 {
                assert(outcomes.last() == rest.last());
            }
            lemma_write_run(device, moved, offset as nat, data, t, rest);
        },
        StepView::Ask(_) => {},
        StepView::Reply(reply) => {
            assert(rest.len() == 0);
            assert(outcomes.last() == first);
        },
    }
}

/// What was written is read back: a write of `data` at `offset` that is
/// followed by a read of as many bytes at `offset` makes the read return
/// `data`, where `data` fits between `offset` and the stream's end.
///
/// Let the stream `device` give the answers `writes` to the write until it
/// replies, and then, as it is left, the answers `reads` to the read until it
/// replies. Unless the last answer to the write was a failure, the write
/// replies the length of `data`; and then, unless the last answer to the read
/// was a failure, the read replies `data`.
pub proof fn lemma_write_then_read_round_trip(
    device: Device,
    offset: i64,
    data: Seq<u8>,
    writes: Seq<OutcomeView>,
    reads: Seq<OutcomeView>,
)
    requires
        0 <= offset,
        offset + data.len() <= device.content.len(),
        data.len() <= u32::MAX,
        served(device, data, write_start(Access::ReadWrite, offset, data.len()), writes),
        run(write_start(Access::ReadWrite, offset, data.len()), writes) is Reply,
        served(
            left(device, data, write_start(Access::ReadWrite, offset, data.len()), writes),
            Seq::empty(),
            read_start(offset, data.len() as u32),
            reads,
        ),
        run(read_start(offset, data.len() as u32), reads) is Reply,
    ensures
        match run(write_start(Access::ReadWrite, offset, data.len()), writes) {
            StepView::Reply(ReplyView::Written(n)) => {
                &&& n == data.len()
                &&& match run(read_start(offset, data.len() as u32), reads) {
                    StepView::Reply(ReplyView::Data(bytes)) => bytes == data,
                    StepView::Reply(reply) => reports_last_failure(reply, reads),
                    StepView::Ask(_) => false,
                }
            },
            StepView::Reply(reply) => reports_last_failure(reply, writes),
            StepView::Ask(_) => false,
        },
{
    let start = write_start(Access::ReadWrite, offset, data.len());
    let written = left(device, data, start, writes);
    lemma_write_puts_data_in_stream(device, offset, data, writes);
    lemma_read_returns_stream_content(written, offset, data.len() as u32, reads);
    match run(start, writes) {
        StepView::Reply(ReplyView::Written(n)) => {
            assert(n == data.len());
            assert(data.subrange(0, n as int) =~= data);
            assert(written.range(offset as nat, data.len()) =~= data);
        },
        _ => {},
    }
}

/// A read within the stream can be served: a stream that seeks and then
/// reads all that was asked for in one piece gives answers that the read
/// runs on to its reply.
pub proof fn lemma_read_can_be_served(device: Device, offset: i64, size: u32)
    requires
        0 <= offset,
        size > 0,
        offset + size <= device.content.len(),
    ensures
        ({
            let answers = seq![
                OutcomeView::Seeked(offset as u64),
                OutcomeView::Data(device.range(offset as nat, size as nat)),
            ];
            &&& served(device, Seq::empty(), read_start(offset, size), answers)
            &&& run(read_start(offset, size), answers) == StepView::Reply(
                ReplyView::Data(device.range(offset as nat, size as nat)),
            )
        }),
{
    let bytes = device.range(offset as nat, size as nat);
    let answers = seq![OutcomeView::Seeked(offset as u64), OutcomeView::Data(bytes)];
    let data = Seq::<u8>::empty();
    let seek = OperationView::SeekToRead { pos: offset as u64, size: size as nat };
    let sought = device.after(data, seek.request(), answers.first());
    let read = OperationView::Read(ReadState { want: size as nat, got: Seq::empty() });
    let rest = answers.drop_first();
    assert(rest.len() == 1 && rest.first() == OutcomeView::Data(bytes));
    assert(rest.drop_first().len() == 0);
    assert(seek.resume(answers.first()) == StepView::Ask(read));
    assert(sought.range(sought.pos, bytes.len()) == bytes);
    assert(Seq::<u8>::empty() + bytes =~= bytes);
    assert(read.resume(rest.first()) == StepView::Reply(ReplyView::Data(bytes)));
    assert(served(sought, data, StepView::Ask(read), rest)) by {
        assert(served(
            sought.after(data, read.request(), rest.first()),
            data,
            read.resume(rest.first()),
            rest.drop_first(),
        ));
    }
    assert(run(StepView::Ask(read), rest) == StepView::Reply(ReplyView::Data(bytes))) by {
        assert(run(read.resume(rest.first()), rest.drop_first()) == read.resume(rest.first()));
    }
}

/// The stream keeps its length, whatever operation runs against it and
/// however far: one that reads or writes at or past the end included.
pub proof fn lemma_stream_length_is_fixed(
    device: Device,
    data: Seq<u8>,
    step: StepView,
    outcomes: Seq<OutcomeView>,
)
    ensures
        left(device, data, step, outcomes).content.len() == device.content.len(),
    decreases outcomes.len(),
{
    if outcomes.len() > 0 {
        match step {
            StepView::Ask(op) => {
                lemma_stream_length_is_fixed(
                    device.after(data, op.request(), outcomes.first()),
                    data,
                    op.resume(outcomes.first()),
                    outcomes.drop_first(),
                );
            },
            StepView::Reply(_) => {},
        }
    }
}

/// The size that an adapter reports is the length of its stream, and stays
/// so after any operation.
///
/// Let `measured` be the answer of the stream `device` to the measuring seek,
/// a success, and `fs` an adapter built from it. Then the size that `fs`
/// reports is the length of the stream, and it is still the length of the
/// stream after the stream gave the answers `outcomes` to an operation that
/// stands at `step`.
pub proof fn lemma_reported_size_is_stream_length(
    device: Device,
    measured: OutcomeView,
    block_size: usize,
    fs: SeekFs,
    data: Seq<u8>,
    step: StepView,
    outcomes: Seq<OutcomeView>,
)
    requires
        block_size > 0,
        device.answers(Seq::empty(), Request::SeekEnd, measured),
        measured matches OutcomeView::Seeked(len) && fs.attr() == FileAttr::describing(
            len,
            block_size,
        ),
    ensures
        fs.getattr_reply().attr.size == device.content.len(),
        fs.getattr_reply().attr.size == left(device, data, step, outcomes).content.len(),
{
    lemma_stream_length_is_fixed(device, data, step, outcomes);
}

} // verus!
