//! Runs of steps: an input through a context under one directive, with
//! room for output that doubles whenever the codec fills it, and the
//! one-shot processing of a whole input that is built on such a run.

use vstd::prelude::*;
use vstd::slice::slice_subrange;
use crate::codec::CodecContext;
use crate::codec::ContextView;
use crate::codec::directive_fits;
use crate::codec::faulted;
use crate::codec::offer_made;
use crate::codec::offer_status;
use crate::codec::stalled;
use crate::codec::Offer;
use crate::codec::framed;
use crate::codec::Direction;
use crate::codec::Directive;
use crate::codec::StepStatus;
use crate::codec::ROOM_MAX;
use crate::error::clip;
use crate::error::Error;
use crate::error::ErrorKind;

verus! {

/// The least room that a step of a one-shot run is given.
pub const ROOM_MIN: usize = 64;

/// The room of the first step for an input of `len` bytes: a little more
/// than the input's length for compression, four times the input's length
/// for decompression, and in both cases within `ROOM_MIN` and `ROOM_MAX`.
pub open spec fn spec_initial_room(direction: Direction, len: int) -> int {
    let wish = match direction {
        Direction::Compress => len + len / 256 + 64,
        Direction::Decompress => 4 * len,
    };
    if wish < ROOM_MIN {
        ROOM_MIN as int
    } else if wish > ROOM_MAX {
        ROOM_MAX as int
    } else {
        wish
    }
}

/// The room after `room` was not enough: twice as much, up to `ROOM_MAX`.
pub open spec fn spec_grow(room: int) -> int {
    if 2 * room > ROOM_MAX {
        ROOM_MAX as int
    } else {
        2 * room
    }
}

/// The room after `times` doublings.
pub open spec fn grown(room: int, times: nat) -> int
    decreases times,
{
    if times == 0 {
        room
    } else {
        spec_grow(grown(room, (times - 1) as nat))
    }
}

/// The room of the first step for an input of `len` bytes.
pub fn initial_room(direction: Direction, len: usize) -> (room: usize)
    ensures
        room == spec_initial_room(direction, len as int),
        ROOM_MIN <= room <= ROOM_MAX,
{
    match direction {
        Direction::Compress => {
            if len >= ROOM_MAX {
                ROOM_MAX
            } else {
                let wish: usize = len + len / 256 + 64;
                if wish > ROOM_MAX {
                    ROOM_MAX
                } else {
                    wish
                }
            }
        },
        Direction::Decompress => {
            if len < ROOM_MIN / 4 {
                ROOM_MIN
            } else if len > ROOM_MAX / 4 {
                ROOM_MAX
            } else {
                4 * len
            }
        },
    }
}

/// The room after `room` was not enough.
pub fn grow(room: usize) -> (more: usize)
    ensures
        more == spec_grow(room as int),
        more <= ROOM_MAX,
        room <= ROOM_MAX ==> room <= more,
        1 <= room < ROOM_MAX ==> room < more,
{
    if room > ROOM_MAX / 2 {
        ROOM_MAX
    } else {
        2 * room
    }
}

/// Doubling is geometric: from any room of at least one byte, thirty
/// doublings reach `ROOM_MAX`.
pub proof fn lemma_growth_is_bounded(room: int)
    requires
        1 <= room <= ROOM_MAX,
    ensures
        grown(room, 30) == ROOM_MAX,
{
    reveal_with_fuel(two_to, 31);
    lemma_grown_at_least(room, 30);
}

proof fn lemma_grown_at_least(room: int, times: nat)
    requires
        1 <= room <= ROOM_MAX,
        times <= 30,
    ensures
        grown(room, times) <= ROOM_MAX,
        grown(room, times) >= ROOM_MAX || grown(room, times) >= two_to(times),
    decreases times,
{
    if times > 0 {
        lemma_grown_at_least(room, (times - 1) as nat);
    }
}

spec fn two_to(times: nat) -> int
    decreases times,
{
    if times == 0 {
        1
    } else {
        2 * two_to((times - 1) as nat)
    }
}

/// All chunks of a sequence of chunks, one behind the other.
pub open spec fn concat(chunks: Seq<Seq<u8>>) -> Seq<u8>
    decreases chunks.len(),
{
    if chunks.len() == 0 {
        Seq::empty()
    } else {
        concat(chunks.drop_last()) + chunks.last()
    }
}

/// `after` is `before` with a prefix of `input` behind it.
pub open spec fn took_prefix(before: Seq<u8>, after: Seq<u8>, input: Seq<u8>) -> bool {
    &&& before.len() <= after.len() <= before.len() + input.len()
    &&& after == before + input.take(after.len() - before.len())
}

proof fn lemma_take_more(input: Seq<u8>, pos: int, more: int)
    requires
        0 <= pos,
        0 <= more,
        pos + more <= input.len(),
    ensures
        input.take(pos) + input.subrange(pos, input.len() as int).take(more) == input.take(
            pos + more,
        ),
{
    assert(input.take(pos) + input.subrange(pos, input.len() as int).take(more) =~= input.take(
        pos + more,
    ));
}

/// What a run of steps gave.
#[derive(Debug)]
pub struct Driven {
    /// Every byte the codec emitted during the run, in order.
    pub output: Vec<u8>,
    /// How many bytes of the input the codec took, from its start.
    pub consumed: usize,
    /// The status of the last step.
    pub status: StepStatus,
}

/// A run of steps that failed: the failure, and what the steps before
/// the failing one had taken and given.
#[derive(Debug)]
pub struct Halted {
    pub error: Error,
    /// Every byte the codec emitted before the failing step, in order.
    pub output: Vec<u8>,
    /// How many bytes of the input the codec had taken by then.
    pub consumed: usize,
}

/// Whether a run under `directive` is over after a step that left
/// `status`, with all input taken or not.
///
/// A run that ends a frame is over when the frame is complete, and a
/// flush when nothing is pending. A run that only feeds is over when the
/// codec asks for input, which it does only once it has taken all; at the
/// end of a frame it is over if it was told to stop there, or if no input
/// is left. It is never over while output waits.
pub open spec fn run_is_over(
    directive: Directive,
    stop_at_frame_end: bool,
    status: StepStatus,
    all_taken: bool,
) -> bool {
    match status {
        StepStatus::HaveMoreOutput => false,
        StepStatus::NeedMoreInput => directive != Directive::End,
        StepStatus::FrameComplete => directive != Directive::Flush && (directive == Directive::End
            || stop_at_frame_end || all_taken),
    }
}

/// Decides whether a run is over.
pub fn is_over(
    directive: Directive,
    stop_at_frame_end: bool,
    status: StepStatus,
    all_taken: bool,
) -> (over: bool)
    ensures
        over == run_is_over(directive, stop_at_frame_end, status, all_taken),
{
    match status {
        StepStatus::HaveMoreOutput => false,
        StepStatus::NeedMoreInput => directive != Directive::End,
        StepStatus::FrameComplete => directive != Directive::Flush && (directive == Directive::End
            || stop_at_frame_end || all_taken),
    }
}

/// Runs the codec on `input` under one directive, step after step, until
/// the run is over (see `run_is_over`), and collects the output. Output
/// always goes first: while the codec reports output waiting, it is
/// drained, with more room each time the room was filled, before anything
/// else is decided.
///
/// A released context and a directive that does not fit the direction
/// are refused with `InvalidState` and change nothing. Any other failure
/// releases the context and is kept in its record as its fault: a native
/// one, and a codec that at the largest room has twice in a row neither
/// taken nor given (`InvalidState`). What the run had collected by then
/// comes back with the failure.
///
/// Each step offers the codec what it has not yet taken of `input`, with
/// the run's directive and a room that starts at `initial_room` and
/// doubles up to `ROOM_MAX`; the context's record shows every offer (see
/// `offered`).
pub fn drive(
    ctx: &mut CodecContext,
    input: &[u8],
    directive: Directive,
    stop_at_frame_end: bool,
) -> (r: Result<Driven, Halted>)
    requires
        old(ctx).wf(),
    ensures
        final(ctx).wf(),
        final(ctx)@.direction == old(ctx)@.direction,
        final(ctx)@.config == old(ctx)@.config,
        final(ctx)@.settings == old(ctx)@.settings,
        took_prefix(old(ctx)@.taken, final(ctx)@.taken, input@),
        offered(old(ctx)@, final(ctx)@, input@, directive),
        match r {
            Ok(d) => {
                &&& old(ctx).live()
                &&& final(ctx).live()
                &&& directive_fits(old(ctx)@.direction, directive)
                &&& d.consumed <= input@.len()
                &&& final(ctx)@.taken == old(ctx)@.taken + input@.take(d.consumed as int)
                &&& final(ctx)@.given == old(ctx)@.given + d.output@
                &&& final(ctx)@.complete == (d.status is FrameComplete)
                &&& final(ctx)@.fault is None
                &&& final(ctx)@.offers.len() > old(ctx)@.offers.len()
                &&& final(ctx)@.offers.last().code is Ok
                &&& d.status == offer_status(old(ctx)@.direction, final(ctx)@.offers.last())
                &&& run_is_over(directive, stop_at_frame_end, d.status, d.consumed == input@.len())
                &&& d.status is NeedMoreInput ==> d.consumed == input@.len()
                &&& d.status is FrameComplete && old(ctx)@.direction == Direction::Compress
                    ==> d.consumed == input@.len()
            },
            Err(h) => {
                &&& h.error.offset == clip(final(ctx)@.taken.len())
                &&& h.consumed <= input@.len()
                &&& final(ctx)@.taken == old(ctx)@.taken + input@.take(h.consumed as int)
                &&& final(ctx)@.given == old(ctx)@.given + h.output@
                &&& if old(ctx).live() && directive_fits(old(ctx)@.direction, directive) {
                    &&& !final(ctx).live()
                    &&& run_fault(old(ctx)@, final(ctx)@, h.error)
                } else {
                    &&& h.error.kind == ErrorKind::InvalidState
                    &&& final(ctx)@ == old(ctx)@
                    &&& final(ctx).live() == old(ctx).live()
                    &&& h.consumed == 0
                    &&& h.output@.len() == 0
                }
            },
        },
{
    let len: usize = input.len();
    let direction = ctx.direction();
    let mut pos: usize = 0;
    let mut out: Vec<u8> = Vec::new();
    let mut room: usize = initial_room(direction, len);
    let mut stuck: bool = false;
    let ghost mut started: bool = false;
    proof {
        assert(input@.take(0) =~= Seq::<u8>::empty());
        assert(old(ctx)@.taken + input@.take(0) =~= old(ctx)@.taken);
        assert(old(ctx)@.given + out@ =~= old(ctx)@.given);
        assert(old(ctx)@.offers.take(old(ctx)@.offers.len() as int) =~= old(ctx)@.offers);
        if ctx.live() {
            ctx.lemma_live_has_no_fault();
        }
    }
    loop
        invariant
            ctx.wf(),
            len == input@.len(),
            pos <= len,
            ROOM_MIN <= room <= ROOM_MAX,
            direction == old(ctx)@.direction,
            ctx@.direction == old(ctx)@.direction,
            ctx@.config == old(ctx)@.config,
            ctx@.settings == old(ctx)@.settings,
            ctx@.taken == old(ctx)@.taken + input@.take(pos as int),
            ctx@.given == old(ctx)@.given + out@,
            ctx.live() == old(ctx).live(),
            offered(old(ctx)@, ctx@, input@, directive),
            started ==> old(ctx).live() && directive_fits(old(ctx)@.direction, directive)
                && ctx@.offers.len() > old(ctx)@.offers.len(),
            ctx.live() ==> ctx@.fault is None,
            !started ==> ctx@ == old(ctx)@ && pos == 0 && out@.len() == 0,
            stuck ==> started && room == ROOM_MAX && ctx@.offers.last().idle()
                && ctx@.offers.last().room == ROOM_MAX,
        decreases (len - pos) + (usize::MAX - out@.len()), ROOM_MAX - room, if stuck {
                0int
            } else {
                1int
            },
    {
        let rest = slice_subrange(input, pos, len);
        let ghost before = ctx@;
        let ghost out_before = out@;
        proof {
            assert(rest@ =~= input@.skip(pos as int));
            assert((old(ctx)@.taken + input@.take(pos as int)).len() == old(ctx)@.taken.len()
                + pos);
        }
        let mut step = match ctx.step(rest, room, directive) {
            Ok(step) => step,
            Err(error) => {
                proof {
                    if old(ctx).live() && directive_fits(old(ctx)@.direction, directive) {
                        lemma_offered_extends(
                            old(ctx)@,
                            before,
                            ctx@,
                            input@,
                            directive,
                            pos as int,
                            room,
                        );
                    }
                }
                return Err(Halted { error, output: out, consumed: pos });
            },
        };
        let consumed: usize = step.consumed;
        let produced: usize = step.produced.len();
        proof {
            lemma_offered_extends(old(ctx)@, before, ctx@, input@, directive, pos as int, room);
            lemma_take_more(input@, pos as int, consumed as int);
            assert((out_before + step.produced@).len() == out_before.len() + produced);
            assert(before.given + step.produced@ == old(ctx)@.given + (out_before
                + step.produced@)) by {
                assert(before.given + step.produced@ =~= old(ctx)@.given + (out_before
                    + step.produced@));
            }
            assert(ctx@.taken == old(ctx)@.taken + input@.take(pos + consumed)) by {
                assert((old(ctx)@.taken + input@.take(pos as int)) + rest@.take(consumed as int)
                    =~= old(ctx)@.taken + (input@.take(pos as int) + rest@.take(
                    consumed as int,
                )));
            }
        }
        pos = pos + consumed;
        out.append(&mut step.produced);
        let total: usize = out.len();
        proof {
            started = true;
        }
        if is_over(directive, stop_at_frame_end, step.status, pos == len) {
            return Ok(Driven { output: out, consumed: pos, status: step.status });
        }
        if consumed == 0 && produced == 0 {
            if room < ROOM_MAX {
                room = grow(room);
            } else if stuck {
                proof {
                    assert(before.offers.last().idle() && before.offers.last().room == ROOM_MAX);
                    assert(ctx@.offers[ctx@.offers.len() - 2] == before.offers.last()) by {
                        assert(ctx@.offers.drop_last()[before.offers.len() - 1]
                            == ctx@.offers[before.offers.len() - 1]);
                    }
                }
                let error = ctx.give_up();
                return Err(Halted { error, output: out, consumed: pos });
            } else {
                stuck = true;
            }
        } else {
            stuck = false;
            if produced == room {
                room = grow(room);
            }
        }
    }
}

/// One more offer of the rest of the input keeps the offers of a run what
/// they are to be.
proof fn lemma_offered_extends(
    start: ContextView,
    before: ContextView,
    after: ContextView,
    input: Seq<u8>,
    directive: Directive,
    pos: int,
    room: usize,
)
    requires
        offered(start, before, input, directive),
        offer_made(before, after, input.skip(pos), room, directive),
        0 <= pos <= input.len(),
        before.taken.len() == start.taken.len() + pos,
        ROOM_MIN <= room <= ROOM_MAX,
    ensures
        offered(start, after, input, directive),
{
    assert(after.offers.take(start.offers.len() as int) =~= start.offers) by {
        assert forall|i: int| 0 <= i < start.offers.len() implies after.offers[i]
            == start.offers[i] by {
            assert(after.offers.drop_last()[i] == after.offers[i]);
            assert(before.offers.take(start.offers.len() as int)[i] == before.offers[i]);
        }
    }
    assert forall|i: int| start.offers.len() <= i < after.offers.len() implies proper_offer(
        start,
        input,
        directive,
        #[trigger] after.offers[i],
    ) by {
        if i < before.offers.len() {
            assert(after.offers.drop_last()[i] == after.offers[i]);
        }
    }
}

/// What a one-shot run gave.
#[derive(Debug)]
pub struct Processed {
    /// Every byte the codec emitted during the run, in order.
    pub output: Vec<u8>,
    /// How many bytes of the input the codec took, from its start.
    pub consumed: usize,
    /// Whether the run ended with the end of a frame.
    pub complete: bool,
}

/// What a one-shot run hands out once the steps are done: a complete
/// frame as it is; an incomplete one as a partial result where truncation
/// is tolerated, and as `TruncatedInput` at `offset` where it is not.
pub open spec fn spec_conclude(
    driven: Driven,
    tolerate_truncation: bool,
    offset: u64,
) -> Result<Processed, Error> {
    if driven.status is FrameComplete {
        Ok(Processed { output: driven.output, consumed: driven.consumed, complete: true })
    } else if tolerate_truncation {
        Ok(Processed { output: driven.output, consumed: driven.consumed, complete: false })
    } else {
        Err(Error { kind: ErrorKind::TruncatedInput, offset })
    }
}

/// Turns the outcome of the steps into the result of a one-shot run.
pub fn conclude(driven: Driven, tolerate_truncation: bool, offset: u64) -> (r: Result<
    Processed,
    Error,
>)
    ensures
        r == spec_conclude(driven, tolerate_truncation, offset),
{
    match driven.status {
        StepStatus::FrameComplete => Ok(
            Processed { output: driven.output, consumed: driven.consumed, complete: true },
        ),
        _ => if tolerate_truncation {
            Ok(Processed { output: driven.output, consumed: driven.consumed, complete: false })
        } else {
            Err(Error::new(ErrorKind::TruncatedInput, offset))
        },
    }
}

/// Whether an offer is one that a run makes which started at `start` and
/// is to put `input` through the codec under `directive`: it has the run's
/// directive, a room from `ROOM_MIN` to `ROOM_MAX`, and as input exactly
/// what the codec had not yet taken of `input`.
pub open spec fn proper_offer(
    start: ContextView,
    input: Seq<u8>,
    directive: Directive,
    offer: Offer,
) -> bool {
    &&& offer.directive == directive
    &&& ROOM_MIN <= offer.room <= ROOM_MAX
    &&& start.taken.len() <= offer.at <= start.taken.len() + input.len()
    &&& offer.input == input.skip(offer.at - start.taken.len())
}

/// What a run that puts `input` through the codec under `directive` has
/// offered the codec: the offers that the context's record has gained
/// between `before` and `after` are all proper offers of the run, and the
/// record has lost none.
pub open spec fn offered(
    before: ContextView,
    after: ContextView,
    input: Seq<u8>,
    directive: Directive,
) -> bool {
    &&& before.offers.len() <= after.offers.len()
    &&& after.offers.take(before.offers.len() as int) == before.offers
    &&& forall|i: int|
        before.offers.len() <= i < after.offers.len() ==> proper_offer(
            before,
            input,
            directive,
            #[trigger] after.offers[i],
        )
}

/// Whether `e` is the fault that ended a run between `before` and
/// `after`: it is the context's fault, borne out by its last offer, which
/// the run made; and if it is a stall, the last two offers were the run's
/// and both gave the codec the largest room.
pub open spec fn run_fault(before: ContextView, after: ContextView, e: Error) -> bool {
    &&& faulted(after, e)
    &&& after.offers.len() > before.offers.len()
    &&& after.offers.last().code is Ok ==> stalled(after.offers, ROOM_MAX) && after.offers.len()
        >= before.offers.len() + 2
}

/// The directive of a one-shot run: a compressor is told to end the
/// frame, a decompressor only to go on.
pub open spec fn one_shot_directive(direction: Direction) -> Directive {
    match direction {
        Direction::Compress => Directive::End,
        Direction::Decompress => Directive::Continue,
    }
}

/// How a one-shot run of a context that was in use comes to fail. Either
/// the codec failed or stalled on what the run offered it (see
/// `run_fault`); or, and this only
/// when decompressing without tolerance of truncation, the codec took all
/// of the input, asked for more with the frame unended, and the failure
/// is `TruncatedInput` at the number of bytes taken. So as long as the
/// codec neither fails nor stalls, input that ends inside a frame is
/// reported as truncated, and as nothing else.
pub open spec fn failed_run(
    before: ContextView,
    after: ContextView,
    input: Seq<u8>,
    tolerate_truncation: bool,
    e: Error,
) -> bool {
    ||| run_fault(before, after, e)
    ||| {
        &&& after.fault is None
        &&& before.direction == Direction::Decompress
        &&& !tolerate_truncation
        &&& after.taken == before.taken + input
        &&& !after.complete
        &&& e == (Error { kind: ErrorKind::TruncatedInput, offset: clip(after.taken.len()) })
    }
}

/// Truncation is reported as truncation. If a one-shot run fails and the
/// failure is not the context's own (the codec neither failed nor
/// stalled), then the run decompressed without tolerance of truncation,
/// the codec took all of the input without ending the frame, and the
/// failure is `TruncatedInput` at the number of bytes taken.
pub proof fn lemma_cut_input_is_truncated(
    before: ContextView,
    after: ContextView,
    input: Seq<u8>,
    tolerate_truncation: bool,
    e: Error,
)
    requires
        failed_run(before, after, input, tolerate_truncation, e),
        after.fault != Some(e),
    ensures
        e == (Error { kind: ErrorKind::TruncatedInput, offset: clip(after.taken.len()) }),
        before.direction == Direction::Decompress,
        !tolerate_truncation,
        after.taken == before.taken + input,
        !after.complete,
{
}

/// Puts `input` through the context in one run and collects the output.
///
/// Compression offers the input with the directive to end the frame until
/// the codec reports the frame complete, so the run takes all of the
/// input and gives one whole frame. Decompression runs until the first
/// frame ends and leaves what follows it untaken. If the input ends
/// before the frame does, the run fails with `TruncatedInput` at the
/// number of bytes taken, or, with `tolerate_truncation`, hands out what
/// was decoded as an incomplete result.
///
/// The context stays usable only after a complete run. A released context
/// is refused with `InvalidState`; every other failure releases it, as
/// does an incomplete result. A run that fails hands out nothing.
pub fn process(ctx: &mut CodecContext, input: &[u8], tolerate_truncation: bool) -> (r: Result<
    Processed,
    Error,
>)
    requires
        old(ctx).wf(),
    ensures
        final(ctx).wf(),
        final(ctx)@.direction == old(ctx)@.direction,
        final(ctx)@.config == old(ctx)@.config,
        final(ctx)@.settings == old(ctx)@.settings,
        took_prefix(old(ctx)@.taken, final(ctx)@.taken, input@),
        offered(old(ctx)@, final(ctx)@, input@, one_shot_directive(old(ctx)@.direction)),
        match r {
            Ok(p) => {
                &&& old(ctx).live()
                &&& final(ctx)@.offers.len() > old(ctx)@.offers.len()
                &&& final(ctx).live() == p.complete
                &&& p.complete ==> framed(
                    old(ctx)@,
                    final(ctx)@,
                    input@.take(p.consumed as int),
                    p.output@,
                )
                &&& final(ctx)@.taken == old(ctx)@.taken + input@.take(p.consumed as int)
                &&& final(ctx)@.given == old(ctx)@.given + p.output@
                &&& p.consumed <= input@.len()
                &&& old(ctx)@.direction == Direction::Compress ==> p.complete && p.consumed
                    == input@.len()
                &&& !p.complete ==> tolerate_truncation && p.consumed == input@.len()
            },
            Err(e) => {
                &&& e.offset == clip(final(ctx)@.taken.len())
                &&& if old(ctx).live() {
                    &&& !final(ctx).live()
                    &&& failed_run(old(ctx)@, final(ctx)@, input@, tolerate_truncation, e)
                } else {
                    &&& e.kind == ErrorKind::InvalidState
                    &&& final(ctx)@ == old(ctx)@
                    &&& !final(ctx).live()
                }
            },
        },
{
    let directive = match ctx.direction() {
        Direction::Compress => Directive::End,
        Direction::Decompress => Directive::Continue,
    };
    let driven = match drive(ctx, input, directive, true) {
        Ok(driven) => driven,
        Err(halted) => {
            return Err(halted.error);
        },
    };
    match driven.status {
        StepStatus::FrameComplete => {},
        _ => {
            ctx.free();
        },
    }
    proof {
        assert(input@.take(input@.len() as int) =~= input@);
    }
    conclude(driven, tolerate_truncation, ctx.offset())
}

} // verus!
