//! The push side: a stream that is written to and hands out what the
//! codec makes of it.
//!
//! A writer is `Open` until the first write, `Writing` after it,
//! `Flushing` for the time a flush runs, and `Closed` for good after
//! `close` or after a failure. Each operation is specified by a relation
//! between the writer before, the result and the writer after; the
//! relations are plain spec functions, so what follows from several
//! operations in a row can be stated and proved over them.

use vstd::prelude::*;
use crate::codec::framed;
use crate::codec::fresh;
use crate::codec::offer_status;
use crate::codec::StepStatus;
use crate::codec::CodecContext;
use crate::codec::ContextView;
use crate::codec::Direction;
use crate::codec::Directive;
use crate::engine::concat;
use crate::engine::drive;
use crate::engine::offered;
use crate::engine::run_fault;
use crate::engine::took_prefix;
use crate::error::clip;
use crate::error::outcome;
use crate::error::Error;
use crate::error::ErrorKind;
use crate::params::Parameters;

verus! {

/// Where a writer stands.
#[derive(Clone, Copy, Debug, PartialEq, Eq, Structural)]
pub enum WriterState {
    Open,
    Writing,
    Flushing,
    Closed,
}

/// Where a writer's output goes.
#[derive(Clone, Copy, Debug, PartialEq, Eq, Structural)]
pub enum WriterMode {
    /// Each operation returns what it made the codec emit.
    Pull,
    /// Output gathers in the writer until `take_output` fetches it;
    /// operations return nothing.
    Accumulate,
}

/// What a writer is to its users.
pub struct WriterView {
    pub state: WriterState,
    pub mode: WriterMode,
    /// The writer's codec context: everything it has taken and given.
    pub context: ContextView,
    /// Every byte handed to the caller so far, in order.
    pub delivered: Seq<u8>,
    /// The output that waits in the writer.
    pub held: Seq<u8>,
}

impl WriterView {
    /// What holds of every writer: all that its codec gave has been
    /// handed out or is held, byte for byte and in order; a pulling writer
    /// holds nothing unless it failed; an open writer has seen no
    /// traffic.
    pub open spec fn consistent(self) -> bool {
        &&& self.context.given == self.delivered + self.held
        &&& self.mode == WriterMode::Pull && self.state != WriterState::Closed
            ==> self.held.len() == 0
        &&& self.state == WriterState::Open ==> self.context.taken.len() == 0
            && self.context.given.len() == 0
    }

    /// The same writer in another state.
    pub open spec fn at(self, state: WriterState) -> WriterView {
        WriterView { state, ..self }
    }
}

/// What the failure of an operation on a writer that was not closed
/// leaves. The failure is the codec's, or that the codec stalled, on what
/// the operation offered it (see `run_fault`). What the codec gave before it failed is held by the writer,
/// whatever its mode, so that `take_output` can still fetch it.
pub open spec fn kept_at_failure(pre: WriterView, e: Error, post: WriterView) -> bool {
    &&& run_fault(pre.context, post.context, e)
    &&& post.delivered == pre.delivered
    &&& post.context.given == post.delivered + post.held
    &&& post.held.len() >= pre.held.len()
    &&& post.held.take(pre.held.len() as int) == pre.held
}

/// Whether the codec was asked during the operation and answered the
/// last offer, without a native code, in a way that means `status`: for a
/// flush that nothing is left to emit, for a close that the frame has
/// ended.
pub open spec fn answered(pre: WriterView, post: WriterView, status: StepStatus) -> bool {
    &&& post.context.offers.len() > pre.context.offers.len()
    &&& post.context.offers.last().code is Ok
    &&& offer_status(pre.context.direction, post.context.offers.last()) == status
}

/// What two views of one writer always share.
pub open spec fn same_writer(pre: WriterView, post: WriterView) -> bool {
    &&& post.mode == pre.mode
    &&& post.context.direction == pre.context.direction
    &&& post.context.config == pre.context.config
    &&& post.context.settings == pre.context.settings
}

/// What an operation that succeeded did with what the codec gave during
/// it: a pulling writer handed it to the caller as `out`, an accumulating
/// writer put it behind what it held.
pub open spec fn emitted_to(pre: WriterView, out: Seq<u8>, post: WriterView) -> bool {
    &&& post.delivered == pre.delivered + out
    &&& post.context.given == post.delivered + post.held
    &&& pre.mode == WriterMode::Accumulate ==> out.len() == 0
    &&& post.mode == WriterMode::Pull ==> post.held.len() == 0
    &&& post.held.len() >= pre.held.len()
    &&& post.held.take(pre.held.len() as int) == pre.held
}

/// `write`: the codec is offered the bytes, what it has not yet taken of
/// them each time, under `Continue` (see `offered`). On a closed writer
/// `InvalidState` and no change. A write of
/// no bytes to any other writer succeeds, gives nothing and leaves the
/// writer `Writing` and else as it was: the codec is not asked. Otherwise,
/// on success, the codec has taken exactly `bytes` behind what it had
/// taken before, and the writer is `Writing`; on failure the writer is
/// `Closed` and holds what the codec gave before it failed.
pub open spec fn write_result(
    pre: WriterView,
    bytes: Seq<u8>,
    r: Result<Seq<u8>, Error>,
    post: WriterView,
) -> bool {
    &&& same_writer(pre, post)
    &&& offered(pre.context, post.context, bytes, Directive::Continue)
    &&& pre.state != WriterState::Closed && bytes.len() == 0 ==> r == Ok::<Seq<u8>, Error>(
        Seq::empty(),
    ) && post == pre.at(WriterState::Writing)
    &&& match r {
        Ok(out) => {
            &&& pre.state != WriterState::Closed
            &&& post.state == WriterState::Writing
            &&& post.context.taken == pre.context.taken + bytes
            &&& emitted_to(pre, out, post)
        },
        Err(e) => if pre.state == WriterState::Closed {
            e.kind == ErrorKind::InvalidState && post == pre
        } else {
            &&& post.state == WriterState::Closed
            &&& took_prefix(pre.context.taken, post.context.taken, bytes)
            &&& kept_at_failure(pre, e, post)
        },
    }
}

/// `flush`: on a closed writer, and on one that decompresses,
/// `InvalidState` and no change. Otherwise, on success, the codec has
/// taken nothing, what it gave until it reported nothing left has been
/// passed on, and the writer is `Writing`; on failure the writer is
/// `Closed` and holds what the codec gave before it failed.
pub open spec fn flush_result(pre: WriterView, r: Result<Seq<u8>, Error>, post: WriterView) -> bool {
    &&& same_writer(pre, post)
    &&& offered(pre.context, post.context, Seq::empty(), Directive::Flush)
    &&& match r {
        Ok(out) => {
            &&& pre.state != WriterState::Closed
            &&& pre.context.direction == Direction::Compress
            &&& post.state == WriterState::Writing
            &&& post.context.taken == pre.context.taken
            &&& emitted_to(pre, out, post)
            &&& answered(pre, post, StepStatus::NeedMoreInput)
        },
        Err(e) => if pre.state == WriterState::Closed || pre.context.direction
            == Direction::Decompress {
            e.kind == ErrorKind::InvalidState && post == pre
        } else {
            &&& post.state == WriterState::Closed
            &&& post.context.taken == pre.context.taken
            &&& kept_at_failure(pre, e, post)
        },
    }
}

/// `close`: on a closed writer nothing happens and nothing comes out.
/// Otherwise the writer is `Closed` afterwards. A compressing writer has
/// then told the codec that the input is over, and on success the codec
/// has ended the frame and everything it gave has been handed on. A
/// decompressing writer whose last frame has not ended reports
/// `TruncatedInput`, unless truncation is tolerated.
pub open spec fn close_result(pre: WriterView, r: Result<Seq<u8>, Error>, post: WriterView) -> bool {
    &&& same_writer(pre, post)
    &&& offered(pre.context, post.context, Seq::empty(), Directive::End)
    &&& if pre.state == WriterState::Closed {
        r == Ok::<Seq<u8>, Error>(Seq::empty()) && post == pre
    } else {
        &&& post.state == WriterState::Closed
        &&& post.context.taken == pre.context.taken
        &&& match pre.context.direction {
            Direction::Compress => match r {
                Ok(out) => {
                    &&& post.context.complete
                    &&& emitted_to(pre, out, post)
                    &&& answered(pre, post, StepStatus::FrameComplete)
                },
                Err(e) => kept_at_failure(pre, e, post),
            },
            Direction::Decompress => {
                &&& post == pre.at(WriterState::Closed)
                &&& r == if pre.context.complete || pre.context.config.tolerate_truncation {
                    Ok::<Seq<u8>, Error>(Seq::empty())
                } else {
                    Err::<Seq<u8>, Error>(
                        Error {
                            kind: ErrorKind::TruncatedInput,
                            offset: clip(pre.context.taken.len()),
                        },
                    )
                }
            },
        }
    }
}

/// A run of successful writes: from `views[i]`, writing `chunks[i]` gave
/// `outs[i]` and left `views[i + 1]`.
pub open spec fn written(
    views: Seq<WriterView>,
    chunks: Seq<Seq<u8>>,
    outs: Seq<Seq<u8>>,
) -> bool {
    &&& views.len() == chunks.len() + 1
    &&& outs.len() == chunks.len()
    &&& forall|i: int|
        0 <= i < chunks.len() ==> write_result(
            views[i],
            #[trigger] chunks[i],
            Ok(outs[i]),
            views[i + 1],
        )
}

/// Closing is idempotent: a second `close` reports success, hands out
/// nothing (no second trailer), and leaves the writer as the first left
/// it, whether the first succeeded or not.
pub proof fn lemma_close_is_idempotent(
    before: WriterView,
    first: Result<Seq<u8>, Error>,
    between: WriterView,
    second: Result<Seq<u8>, Error>,
    after: WriterView,
)
    requires
        close_result(before, first, between),
        close_result(between, second, after),
    ensures
        second == Ok::<Seq<u8>, Error>(Seq::empty()),
        after == between,
{
}

/// After `close`, whatever it returned, every write and every flush fails
/// with `InvalidState` and changes nothing.
pub proof fn lemma_closed_stays_closed(
    before: WriterView,
    closing: Result<Seq<u8>, Error>,
    closed: WriterView,
    bytes: Seq<u8>,
    r: Result<Seq<u8>, Error>,
    after: WriterView,
)
    requires
        close_result(before, closing, closed),
        write_result(closed, bytes, r, after) || flush_result(closed, r, after),
    ensures
        r matches Err(e) && e.kind == ErrorKind::InvalidState,
        after == closed,
{
}

/// Where a run of successful writes stands after its first `n` writes:
/// the codec has taken the first `n` chunks, one behind the other, and
/// the caller has been handed the first `n` outputs.
pub proof fn lemma_written_so_far(
    views: Seq<WriterView>,
    chunks: Seq<Seq<u8>>,
    outs: Seq<Seq<u8>>,
    n: int,
)
    requires
        written(views, chunks, outs),
        views[0].consistent(),
        views[0].state != WriterState::Closed,
        0 <= n <= chunks.len(),
    ensures
        same_writer(views[0], views[n]),
        views[n].state != WriterState::Closed,
        views[n].context.taken == views[0].context.taken + concat(chunks.take(n)),
        views[n].delivered == views[0].delivered + concat(outs.take(n)),
        views[n].context.given == views[n].delivered + views[n].held,
        views[n].mode == WriterMode::Pull ==> views[n].held.len() == 0,
    decreases n,
{
    if n == 0 {
        assert(chunks.take(0) =~= Seq::<Seq<u8>>::empty());
        assert(outs.take(0) =~= Seq::<Seq<u8>>::empty());
        assert(views[0].context.taken + concat(chunks.take(0)) =~= views[0].context.taken);
        assert(views[0].delivered + concat(outs.take(0)) =~= views[0].delivered);
    } else {
        lemma_written_so_far(views, chunks, outs, n - 1);
        let last = chunks[n - 1];
        assert(write_result(views[n - 1], last, Ok(outs[n - 1]), views[n - 1 + 1]));
        assert(chunks.take(n).drop_last() =~= chunks.take(n - 1));
        assert(chunks.take(n).last() == chunks[n - 1]);
        assert(outs.take(n).drop_last() =~= outs.take(n - 1));
        assert(outs.take(n).last() == outs[n - 1]);
        assert(views[n].context.taken =~= views[0].context.taken + concat(chunks.take(n)));
        assert(views[n].delivered =~= views[0].delivered + concat(outs.take(n)));
    }
}

/// Streaming in any split. Take a writer that is not closed, write
/// `chunks` to it one after the other, and close it, all with success.
/// Then the codec has been given exactly the chunks' bytes in their
/// order, whatever the split; the caller has been handed the outputs of
/// the writes and of the close in that order; and what was handed on,
/// with what an accumulating writer still holds, is exactly what the
/// codec gave. A compressing codec has ended its frame. For a compressing
/// writer that pulls, the run is `framed` just as a one-shot compression
/// of the same bytes is: both have put the same input before the codec
/// and passed on all of its output. (The two outputs need not be the same
/// bytes: how the codec cuts its blocks is its own affair.)
pub proof fn lemma_stream_carries_every_byte(
    views: Seq<WriterView>,
    chunks: Seq<Seq<u8>>,
    outs: Seq<Seq<u8>>,
    tail: Seq<u8>,
    end: WriterView,
)
    requires
        written(views, chunks, outs),
        views[0].consistent(),
        views[0].state != WriterState::Closed,
        close_result(views.last(), Ok(tail), end),
    ensures
        end.state == WriterState::Closed,
        end.context.taken == views[0].context.taken + concat(chunks),
        end.delivered == views[0].delivered + concat(outs) + tail,
        end.context.given == end.delivered + end.held,
        end.mode == WriterMode::Pull ==> end.held.len() == 0,
        end.context.direction == Direction::Compress ==> end.context.complete,
        end.context.direction == Direction::Compress && end.mode == WriterMode::Pull ==> framed(
            views[0].context,
            end.context,
            concat(chunks),
            concat(outs) + tail,
        ),
{
    let n = chunks.len() as int;
    lemma_written_so_far(views, chunks, outs, n);
    assert(chunks.take(n) =~= chunks);
    assert(outs.take(n) =~= outs);
    assert(views.last() == views[n]);
    if end.context.direction == Direction::Decompress {
        assert(end == views[n].at(WriterState::Closed));
        assert(tail =~= Seq::<u8>::empty());
        assert(views[n].delivered + tail =~= views[n].delivered);
    } else if end.mode == WriterMode::Pull {
        assert(views[0].held =~= Seq::<u8>::empty());
        assert(end.held =~= Seq::<u8>::empty());
        assert(views[0].context.given =~= views[0].delivered);
        assert(end.context.given =~= end.delivered);
        assert(end.context.given =~= views[0].context.given + (concat(outs) + tail));
    }
}

/// A push-style stream over a codec context of its own.
pub struct StreamWriter {
    ctx: CodecContext,
    state: WriterState,
    mode: WriterMode,
    tolerate: bool,
    held: Vec<u8>,
    delivered: Ghost<Seq<u8>>,
}

impl View for StreamWriter {
    type V = WriterView;

    closed spec fn view(&self) -> WriterView {
        WriterView {
            state: self.state,
            mode: self.mode,
            context: self.ctx@,
            delivered: self.delivered@,
            held: self.held@,
        }
    }
}

impl StreamWriter {
    /// What holds of every writer that this module hands out.
    pub closed spec fn wf(&self) -> bool {
        &&& self.ctx.wf()
        &&& self@.consistent()
        &&& self.state != WriterState::Closed ==> self.ctx.live()
        &&& self.state == WriterState::Closed ==> !self.ctx.live()
        &&& self.state != WriterState::Flushing
        &&& self.tolerate == self.ctx@.config.tolerate_truncation
    }

    /// Every writer is consistent, and none is seen while it flushes.
    pub proof fn lemma_wf_view(&self)
        requires
            self.wf(),
        ensures
            self@.consistent(),
            self@.state != WriterState::Flushing,
    {
    }

    /// Opens a writer over a new context. It fails as making the context
    /// fails.
    pub fn open(direction: Direction, params: &Parameters, mode: WriterMode) -> (r: Result<
        StreamWriter,
        Error,
    >)
        ensures
            match r {
                Ok(w) => {
                    &&& w.wf()
                    &&& w@ == (WriterView {
                        state: WriterState::Open,
                        mode,
                        context: fresh(direction, params@),
                        delivered: Seq::empty(),
                        held: Seq::empty(),
                    })
                },
                Err(e) => {
                    &&& e.offset == 0
                    &&& e.kind == ErrorKind::InvalidParameter || e.kind
                        == ErrorKind::ResourceExhausted
                },
            },
    {
        let ctx = match CodecContext::create(direction, params) {
            Ok(ctx) => ctx,
            Err(e) => {
                return Err(e);
            },
        };
        let w = StreamWriter {
            ctx,
            state: WriterState::Open,
            mode,
            tolerate: params.tolerate_truncation(),
            held: Vec::new(),
            delivered: Ghost(Seq::empty()),
        };
        assert(w@.context.given =~= w@.delivered + w@.held);
        Ok(w)
    }

    /// Where the writer stands.
    pub fn state(&self) -> (state: WriterState)
        ensures
            state == self@.state,
    {
        self.state
    }

    /// Hands the output of an operation to where the mode sends it.
    fn deliver(&mut self, output: Vec<u8>) -> (out: Vec<u8>)
        requires
            old(self).ctx.wf(),
            old(self).mode == WriterMode::Pull ==> old(self).held@.len() == 0,
            old(self).ctx@.given == old(self).delivered@ + old(self).held@ + output@,
        ensures
            final(self).ctx == old(self).ctx,
            final(self).state == old(self).state,
            final(self).mode == old(self).mode,
            final(self).tolerate == old(self).tolerate,
            final(self).mode == WriterMode::Pull ==> final(self).held@.len() == 0,
            final(self).delivered@ == old(self).delivered@ + out@,
            final(self).ctx@.given == final(self).delivered@ + final(self).held@,
            old(self).mode == WriterMode::Accumulate ==> out@.len() == 0,
            final(self).held@.len() >= old(self).held@.len(),
            final(self).held@.take(old(self).held@.len() as int) == old(self).held@,
    {
        match self.mode {
            WriterMode::Pull => {
                self.delivered = Ghost(self.delivered@ + output@);
                assert(self.delivered@ + self.held@ =~= old(self).delivered@ + old(self).held@
                    + output@);
                assert(self.held@.take(old(self).held@.len() as int) =~= old(self).held@);
                output
            },
            WriterMode::Accumulate => {
                let ghost emitted = output@;
                let mut output = output;
                self.held.append(&mut output);
                let nothing: Vec<u8> = Vec::new();
                assert(self.delivered@ + nothing@ =~= self.delivered@);
                assert(self.delivered@ + self.held@ =~= old(self).delivered@ + old(self).held@
                    + emitted);
                assert(self.held@.take(old(self).held@.len() as int) =~= old(self).held@);
                nothing
            },
        }
    }

    /// Closes the writer after a failure and keeps what the codec gave
    /// before it.
    fn halt(&mut self, output: Vec<u8>)
        requires
            old(self).ctx.wf(),
            !old(self).ctx.live(),
            old(self).ctx@.given == old(self).delivered@ + old(self).held@ + output@,
        ensures
            final(self).ctx == old(self).ctx,
            final(self).state == WriterState::Closed,
            final(self).mode == old(self).mode,
            final(self).tolerate == old(self).tolerate,
            final(self).delivered == old(self).delivered,
            final(self).ctx@.given == final(self).delivered@ + final(self).held@,
            final(self).held@.len() >= old(self).held@.len(),
            final(self).held@.take(old(self).held@.len() as int) == old(self).held@,
    {
        let mut output = output;
        let ghost kept = output@;
        self.held.append(&mut output);
        self.state = WriterState::Closed;
        proof {
            assert(self.delivered@ + self.held@ =~= old(self).delivered@ + old(self).held@
                + kept);
            assert(self.held@.take(old(self).held@.len() as int) =~= old(self).held@);
        }
    }

    /// Writes `bytes` to the stream: the codec takes all of them, and
    /// what it emits meanwhile is handed on. See `write_result`.
    pub fn write(&mut self, bytes: &[u8]) -> (r: Result<Vec<u8>, Error>)
        requires
            old(self).wf(),
        ensures
            final(self).wf(),
            write_result(old(self)@, bytes@, outcome(r), final(self)@),
    {
        proof {
            assert(self.ctx@.offers.take(self.ctx@.offers.len() as int) =~= self.ctx@.offers);
        }
        if self.state == WriterState::Closed {
            return Err(Error::new(ErrorKind::InvalidState, self.ctx.offset()));
        }
        self.state = WriterState::Writing;
        if bytes.len() == 0 {
            let nothing: Vec<u8> = Vec::new();
            proof {
                assert(self.ctx@.taken + bytes@ =~= self.ctx@.taken);
                assert(self.delivered@ + nothing@ =~= self.delivered@);
                assert(self.held@.take(self.held@.len() as int) =~= self.held@);
            }
            return Ok(nothing);
        }
        match drive(&mut self.ctx, bytes, Directive::Continue, false) {
            Ok(driven) => {
                proof {
                    assert(bytes@.take(bytes@.len() as int) =~= bytes@);
                    assert(self.ctx@.given =~= self.delivered@ + self.held@ + driven.output@);
                }
                Ok(self.deliver(driven.output))
            },
            Err(halted) => {
                proof {
                    assert(self.ctx@.given =~= self.delivered@ + self.held@ + halted.output@);
                }
                self.halt(halted.output);
                Err(halted.error)
            },
        }
    }

    /// Makes the codec emit all it has buffered, without ending the
    /// frame. See `flush_result`.
    pub fn flush(&mut self) -> (r: Result<Vec<u8>, Error>)
        requires
            old(self).wf(),
        ensures
            final(self).wf(),
            flush_result(old(self)@, outcome(r), final(self)@),
    {
        proof {
            assert(self.ctx@.offers.take(self.ctx@.offers.len() as int) =~= self.ctx@.offers);
        }
        if self.state == WriterState::Closed || self.ctx.direction() == Direction::Decompress {
            return Err(Error::new(ErrorKind::InvalidState, self.ctx.offset()));
        }
        self.state = WriterState::Flushing;
        let nothing: Vec<u8> = Vec::new();
        match drive(&mut self.ctx, nothing.as_slice(), Directive::Flush, false) {
            Ok(driven) => {
                proof {
                    assert(old(self).ctx@.taken + nothing@.take(driven.consumed as int) =~= old(
                        self,
                    ).ctx@.taken);
                    assert(self.ctx@.given =~= self.delivered@ + self.held@ + driven.output@);
                }
                self.state = WriterState::Writing;
                Ok(self.deliver(driven.output))
            },
            Err(halted) => {
                proof {
                    assert(self.ctx@.taken =~= old(self).ctx@.taken);
                    assert(self.ctx@.given =~= self.delivered@ + self.held@ + halted.output@);
                }
                self.halt(halted.output);
                Err(halted.error)
            },
        }
    }

    /// Ends the stream and releases its context. Closing a closed writer
    /// does nothing and gives nothing. See `close_result`.
    pub fn close(&mut self) -> (r: Result<Vec<u8>, Error>)
        requires
            old(self).wf(),
        ensures
            final(self).wf(),
            close_result(old(self)@, outcome(r), final(self)@),
    {
        proof {
            assert(self.ctx@.offers.take(self.ctx@.offers.len() as int) =~= self.ctx@.offers);
        }
        if self.state == WriterState::Closed {
            return Ok(Vec::new());
        }
        match self.ctx.direction() {
            Direction::Compress => {
                let nothing: Vec<u8> = Vec::new();
                match drive(&mut self.ctx, nothing.as_slice(), Directive::End, false) {
                    Ok(driven) => {
                        proof {
                            assert(old(self).ctx@.taken + nothing@.take(driven.consumed as int)
                                =~= old(self).ctx@.taken);
                            assert(self.ctx@.given =~= self.delivered@ + self.held@
                                + driven.output@);
                        }
                        self.ctx.free();
                        let out = self.deliver(driven.output);
                        self.state = WriterState::Closed;
                        Ok(out)
                    },
                    Err(halted) => {
                        proof {
                            assert(self.ctx@.taken =~= old(self).ctx@.taken);
                            assert(self.ctx@.given =~= self.delivered@ + self.held@
                                + halted.output@);
                        }
                        self.halt(halted.output);
                        Err(halted.error)
                    },
                }
            },
            Direction::Decompress => {
                let whole = self.ctx.at_frame_end() || self.tolerate;
                let offset = self.ctx.offset();
                self.ctx.free();
                self.state = WriterState::Closed;
                if whole {
                    Ok(Vec::new())
                } else {
                    Err(Error::new(ErrorKind::TruncatedInput, offset))
                }
            },
        }
    }

    /// Fetches the output that waits in the writer. It works in every
    /// state, so what an accumulating writer emitted on `close` can be
    /// had after it.
    pub fn take_output(&mut self) -> (out: Vec<u8>)
        requires
            old(self).wf(),
        ensures
            final(self).wf(),
            out@ == old(self)@.held,
            final(self)@ == (WriterView {
                delivered: old(self)@.delivered + out@,
                held: Seq::empty(),
                ..old(self)@
            }),
    {
        let mut out: Vec<u8> = Vec::new();
        out.append(&mut self.held);
        self.delivered = Ghost(self.delivered@ + out@);
        proof {
            assert(out@ =~= old(self).held@);
            assert(self.delivered@ + self.held@ =~= old(self).delivered@ + old(self).held@);
        }
        out
    }
}

} // verus!
