//! Batches: many independent inputs, each turned into one output, with
//! the outputs in the order of the inputs however the work is shared out.
//!
//! The inputs are cut into one contiguous span per worker. A worker has
//! a codec context of its own and goes through its span in order. For
//! each input it hands back an item: the outcome, and with it the record
//! of its context before and after the run, so that the item says of
//! itself which input it was made from. The records are the contexts'
//! own: only the codec binding makes them. What the workers hand back is
//! joined by `assemble`, which checks that each part starts where the
//! parts before it end. The workers may run in turn, as `batch_process`
//! runs them, or side by side: a caller that spreads them over threads
//! calls `partition`, `run_span`, `assemble` and `settle` itself.

use vstd::arithmetic::div_mod::lemma_fundamental_div_mod;
use vstd::pervasive::unreached;
use vstd::prelude::*;
use crate::buffer::BufferView;
use crate::codec::CodecContext;
use crate::codec::Direction;
use crate::codec::Refusal;
use crate::codec::Snapshot;
use crate::engine::failed_run;
use crate::engine::offered;
use crate::engine::one_shot_directive;
use crate::engine::process;
use crate::engine::took_prefix;
use crate::error::clip;
use crate::error::kind_later;
use crate::error::Error;
use crate::error::ErrorKind;
use crate::params::Parameters;
use crate::params::ParametersView;

verus! {

/// The items from `start` up to, not including, `end`.
#[derive(Clone, Copy, Debug, PartialEq, Eq, Structural)]
pub struct Span {
    pub start: usize,
    pub end: usize,
}

/// The record of a worker's context before and after it served one input.
pub struct Run {
    pub before: Snapshot,
    pub after: Snapshot,
}

/// What stands behind an outcome: the run of a context, or the refusal
/// to make one. Both come from the codec binding alone, so an item cannot
/// claim what no context did.
pub enum Evidence {
    Ran(Run),
    Refused(Refusal),
}

/// What became of one input: the outcome, and what stands behind it.
pub struct Item {
    pub outcome: Result<Vec<u8>, Error>,
    pub evidence: Evidence,
}

/// What one worker hands back: the items for the inputs of its span, in
/// their order, and the index of the first of them.
pub struct WorkerOutput {
    pub start: usize,
    pub items: Vec<Item>,
}

/// A batch that failed as a whole: the first failure among its items, and
/// the items.
pub struct FailedBatch {
    pub error: Error,
    pub items: Vec<Item>,
}

/// The bytes of each input.
pub open spec fn contents<'a>(inputs: Seq<BufferView<'a>>) -> Seq<Seq<u8>> {
    Seq::new(inputs.len(), |i: int| inputs[i]@)
}

/// Whether `item` is what became of `input` in a worker for the direction
/// and the parameters.
///
/// With a run, the worker's context was in use and set up for the
/// direction and the parameters, and during the run it was offered this
/// input, what it had not yet taken of it each time, and took a prefix of
/// it and nothing else. On success it gave exactly the output;
/// it ended the frame, having taken all of the input if it compresses, or
/// else, where truncation is tolerated, it took all of the input and was
/// released. On failure it was released, the failure names the number
/// of bytes of this input that it had taken, and it came about as
/// `failed_run` says (where the failure names the number of bytes that
/// the context had taken in all).
///
/// With a refusal, no context could be made for the direction and the
/// parameters: the failure is that of the refusal, as it is reported
/// later than the making of the parameters (see `kind_later`).
#[verifier::opaque]
pub open spec fn served(
    direction: Direction,
    config: ParametersView,
    input: Seq<u8>,
    item: Item,
) -> bool {
    match item.evidence {
        Evidence::Ran(run) => {
            &&& run.before.live()
            &&& run.before@.direction == direction
            &&& run.before@.config == config
            &&& run.after@.direction == direction
            &&& run.after@.config == config
            &&& run.after@.settings == run.before@.settings
            &&& took_prefix(run.before@.taken, run.after@.taken, input)
            &&& offered(run.before@, run.after@, input, one_shot_directive(direction))
            &&& match item.outcome {
                Ok(output) => {
                    &&& run.after@.given == run.before@.given + output@
                    &&& direction == Direction::Compress ==> run.after.live()
                    &&& if run.after.live() {
                        &&& run.after@.complete
                        &&& direction == Direction::Compress ==> run.after@.taken
                            == run.before@.taken + input
                    } else {
                        &&& config.tolerate_truncation
                        &&& run.after@.taken == run.before@.taken + input
                    }
                },
                Err(e) => {
                    &&& !run.after.live()
                    &&& e.offset == clip(run.after@.taken.len()) - clip(run.before@.taken.len())
                    &&& failed_run(
                        run.before@,
                        run.after@,
                        input,
                        config.tolerate_truncation,
                        Error { kind: e.kind, offset: clip(run.after@.taken.len()) },
                    )
                },
            }
        },
        Evidence::Refused(refusal) => {
            &&& refusal.direction() == direction
            &&& refusal.config() == config
            &&& item.outcome == Err::<Vec<u8>, Error>(
                Error { kind: kind_later(refusal.failure().kind), offset: 0 },
            )
            &&& refusal.failure().offset == 0
            &&& refusal.failure().kind == ErrorKind::InvalidParameter || refusal.failure().kind
                == ErrorKind::ResourceExhausted
        },
    }
}

/// Whether each of `items` is what became of the input at its place,
/// counted from `from`.
pub open spec fn all_served(
    direction: Direction,
    config: ParametersView,
    inputs: Seq<Seq<u8>>,
    from: int,
    items: Seq<Item>,
) -> bool {
    forall|m: int|
        0 <= m < items.len() ==> served(direction, config, inputs[from + m], #[trigger] items[m])
}

/// The number of workers for `count` items when `threads` are asked for:
/// the lesser of the two, but one worker where no threads are asked for,
/// and none where there is nothing to do.
pub open spec fn spec_pool_size(threads: int, count: int) -> int {
    if count == 0 {
        0
    } else if threads <= 1 {
        1
    } else if threads < count {
        threads
    } else {
        count
    }
}

/// Where the span of worker `k` starts when `count` items are shared out
/// among `workers`: every worker gets `count / workers` items, and the
/// first `count % workers` workers one more.
pub open spec fn span_start(count: int, workers: int, k: int) -> int {
    k * (count / workers) + if k < count % workers {
        k
    } else {
        count % workers
    }
}

/// Whether `spans` is the sharing out of `count` items among `workers`.
pub open spec fn is_partition(spans: Seq<Span>, count: int, workers: int) -> bool {
    &&& spans.len() == workers
    &&& forall|k: int|
        0 <= k < workers ==> (#[trigger] spans[k]).start == span_start(count, workers, k)
            && spans[k].end == span_start(count, workers, k + 1)
}

/// The items of all parts, one part behind the other.
pub open spec fn joined(parts: Seq<WorkerOutput>) -> Seq<Item>
    decreases parts.len(),
{
    if parts.len() == 0 {
        Seq::empty()
    } else {
        joined(parts.drop_last()) + parts.last().items@
    }
}

/// Whether each part starts where the parts before it end.
pub open spec fn in_order(parts: Seq<WorkerOutput>) -> bool {
    forall|k: int| 0 <= k < parts.len() ==> (#[trigger] parts[k]).start == joined(parts.take(k)).len()
}

/// The first failure among the items, if there is one.
pub open spec fn first_failure(items: Seq<Item>) -> Option<Error>
    decreases items.len(),
{
    if items.len() == 0 {
        None
    } else {
        match first_failure(items.drop_last()) {
            Some(e) => Some(e),
            None => match items.last().outcome {
                Err(e) => Some(e),
                Ok(_) => None,
            },
        }
    }
}

/// The sharing out is a partition in order: the first span starts at the
/// first item, each span ends where the next starts, the last ends behind
/// the last item, and no span is more than one item longer than another.
/// This holds for every number of workers.
pub proof fn lemma_partition_covers(count: int, workers: int, k: int)
    requires
        0 <= count,
        1 <= workers,
        0 <= k < workers,
    ensures
        span_start(count, workers, 0) == 0,
        span_start(count, workers, workers) == count,
        0 <= span_start(count, workers, k) <= span_start(count, workers, k + 1) <= count,
        count / workers <= span_start(count, workers, k + 1) - span_start(count, workers, k)
            <= count / workers + 1,
{
    let base = count / workers;
    let extra = count % workers;
    lemma_fundamental_div_mod(count, workers);
    assert(0 <= extra < workers);
    assert(0 <= base) by (nonlinear_arith)
        requires
            0 <= count,
            1 <= workers,
            base == count / workers,
    ;
    assert((k + 1) * base == k * base + base) by (nonlinear_arith);
    assert(0 <= k * base) by (nonlinear_arith)
        requires
            0 <= k,
            0 <= base,
    ;
    assert((k + 1) * base <= workers * base) by (nonlinear_arith)
        requires
            k + 1 <= workers,
            0 <= base,
    ;
    assert(workers * base == workers * (count / workers));
}

/// Splitting a sequence of items by the partition and joining the parts
/// gives the sequence back: with every number of workers, the item for
/// the input at each index stands at that index. `parts[k]` is what
/// worker `k` hands back, whatever the items are and in whatever order
/// the workers finished.
pub proof fn lemma_batch_keeps_order(
    whole: Seq<Item>,
    workers: int,
    parts: Seq<WorkerOutput>,
)
    requires
        1 <= workers,
        parts.len() == workers,
        forall|k: int|
            0 <= k < workers ==> (#[trigger] parts[k]).start == span_start(
                whole.len() as int,
                workers,
                k,
            ) && parts[k].items@ == whole.subrange(
                span_start(whole.len() as int, workers, k),
                span_start(whole.len() as int, workers, k + 1),
            ),
    ensures
        in_order(parts),
        joined(parts) == whole,
{
    let count = whole.len() as int;
    assert forall|k: int| 0 <= k <= workers implies #[trigger] joined(parts.take(k))
        == whole.take(span_start(count, workers, k)) by {
        lemma_joined_prefix(whole, workers, parts, k);
    }
    assert(parts.take(workers) =~= parts);
    lemma_partition_covers(count, workers, 0);
    assert(whole.take(count) =~= whole);
    assert forall|k: int| 0 <= k < parts.len() implies (#[trigger] parts[k]).start == joined(
        parts.take(k),
    ).len() by {
        lemma_partition_covers(count, workers, k);
        assert(joined(parts.take(k)) == whole.take(span_start(count, workers, k)));
    }
}

proof fn lemma_joined_prefix(
    whole: Seq<Item>,
    workers: int,
    parts: Seq<WorkerOutput>,
    k: int,
)
    requires
        1 <= workers,
        parts.len() == workers,
        0 <= k <= workers,
        forall|k: int|
            0 <= k < workers ==> (#[trigger] parts[k]).start == span_start(
                whole.len() as int,
                workers,
                k,
            ) && parts[k].items@ == whole.subrange(
                span_start(whole.len() as int, workers, k),
                span_start(whole.len() as int, workers, k + 1),
            ),
    ensures
        joined(parts.take(k)) == whole.take(span_start(whole.len() as int, workers, k)),
    decreases k,
{
    let count = whole.len() as int;
    if k == 0 {
        lemma_partition_covers(count, workers, 0);
        assert(parts.take(0) =~= Seq::<WorkerOutput>::empty());
        assert(whole.take(0) =~= Seq::<Item>::empty());
    } else {
        lemma_joined_prefix(whole, workers, parts, k - 1);
        lemma_partition_covers(count, workers, k - 1);
        assert(parts.take(k).drop_last() =~= parts.take(k - 1));
        assert(parts.take(k).last() == parts[k - 1]);
        let a = span_start(count, workers, k - 1);
        let b = span_start(count, workers, k - 1 + 1);
        assert(whole.take(a) + whole.subrange(a, b) =~= whole.take(b));
    }
}

/// The number of workers for `count` items when `threads` are asked for.
pub fn pool_size(threads: u32, count: usize) -> (workers: usize)
    ensures
        workers == spec_pool_size(threads as int, count as int),
        count > 0 ==> 1 <= workers <= count,
{
    if count == 0 {
        0
    } else if threads <= 1 {
        1
    } else if (threads as usize) < count {
        threads as usize
    } else {
        count
    }
}

/// Shares `count` items out among `workers`: one span for each worker,
/// so none where there are no workers.
pub fn partition(count: usize, workers: usize) -> (spans: Vec<Span>)
    ensures
        is_partition(spans@, count as int, workers as int),
{
    if workers == 0 {
        return Vec::new();
    }
    let base: usize = count / workers;
    let extra: usize = count % workers;
    let mut spans: Vec<Span> = Vec::new();
    let mut start: usize = 0;
    let mut k: usize = 0;
    proof {
        lemma_partition_covers(count as int, workers as int, 0);
    }
    while k < workers
        invariant
            1 <= workers,
            k <= workers,
            base == count / workers,
            extra == count % workers,
            start == span_start(count as int, workers as int, k as int),
            spans@.len() == k,
            forall|j: int|
                0 <= j < k ==> (#[trigger] spans@[j]).start == span_start(
                    count as int,
                    workers as int,
                    j,
                ) && spans@[j].end == span_start(count as int, workers as int, j + 1),
        decreases workers - k,
    {
        proof {
            lemma_partition_covers(count as int, workers as int, k as int);
            assert((k + 1) * (count as int / workers as int) == k * (count as int
                / workers as int) + (count as int / workers as int)) by (nonlinear_arith);
        }
        let len: usize = if k < extra {
            base + 1
        } else {
            base
        };
        let end: usize = start + len;
        spans.push(Span { start, end });
        start = end;
        k = k + 1;
    }
    spans
}

/// Goes through the inputs of one span in order, with a context of the
/// worker's own. The context serves one input after the other as long as
/// the runs are complete; after a failure the next input gets a new one.
/// Each item is what became of the input at its place (see `served`), and
/// what happens to one input does not touch the others.
pub fn run_span<'a>(
    direction: Direction,
    inputs: &Vec<BufferView<'a>>,
    span: Span,
    params: &Parameters,
) -> (part: WorkerOutput)
    requires
        span.start <= span.end <= inputs@.len(),
    ensures
        part.start == span.start,
        part.items@.len() == span.end - span.start,
        all_served(direction, params@, contents(inputs@), span.start as int, part.items@),
{
    let mut items: Vec<Item> = Vec::new();
    let mut worker: Option<CodecContext> = None;
    let mut i: usize = span.start;
    while i < span.end
        invariant
            span.start <= i <= span.end <= inputs@.len(),
            items@.len() == i - span.start,
            worker matches Some(ctx) ==> ctx.wf() && ctx.live() && ctx@.direction == direction
                && ctx@.config == params@,
            all_served(direction, params@, contents(inputs@), span.start as int, items@),
        decreases span.end - i,
    {
        let ghost done = items@;
        let item = match worker {
            Some(ctx) => serve(ctx, inputs[i].as_slice(), params),
            None => match CodecContext::create_or_refuse(direction, params) {
                Ok(ctx) => serve(ctx, inputs[i].as_slice(), params),
                Err(refusal) => (turned_away(refusal, Ghost(inputs@[i as int]@)), None),
            },
        };
        worker = item.1;
        items.push(item.0);
        proof {
            assert forall|m: int| 0 <= m < items@.len() implies served(
                direction,
                params@,
                contents(inputs@)[span.start + m],
                #[trigger] items@[m],
            ) by {
                if m < done.len() {
                    assert(items@[m] == done[m]);
                }
            }
        }
        i = i + 1;
    }
    WorkerOutput { start: span.start, items }
}

/// The item for an input for which no context could be made.
fn turned_away(refusal: Refusal, Ghost(input): Ghost<Seq<u8>>) -> (item: Item)
    requires
        refusal.failure().offset == 0,
        refusal.failure().kind == ErrorKind::InvalidParameter || refusal.failure().kind
            == ErrorKind::ResourceExhausted,
    ensures
        served(refusal.direction(), refusal.config(), input, item),
{
    proof {
        reveal(served);
    }
    Item { outcome: Err(refusal.error().later()), evidence: Evidence::Refused(refusal) }
}

/// Serves one input with a worker's context, and hands the context back
/// if it can serve another.
fn serve(ctx: CodecContext, input: &[u8], params: &Parameters) -> (r: (Item, Option<CodecContext>))
    requires
        ctx.wf(),
        ctx.live(),
        ctx@.config == params@,
    ensures
        served(ctx@.direction, params@, input@, r.0),
        r.1 matches Some(next) ==> next.wf() && next.live() && next@.direction == ctx@.direction
            && next@.config == params@,
{
    proof {
        reveal(served);
    }
    let mut ctx = ctx;
    let before = ctx.snapshot();
    let start = ctx.offset();
    let outcome = match process(&mut ctx, input, params.tolerate_truncation()) {
        Ok(done) => {
            proof {
                assert(input@.take(input@.len() as int) =~= input@);
            }
            Ok(done.output)
        },
        Err(e) => Err(Error::new(e.kind, e.offset - start)),
    };
    let after = ctx.snapshot();
    let item = Item { outcome, evidence: Evidence::Ran(Run { before, after }) };
    if ctx.is_live() {
        (item, Some(ctx))
    } else {
        (item, None)
    }
}

/// Joins what the workers handed back, first worker first. The parts must
/// be in order, each starting where the parts before it end, and hold
/// `count` items in all; anything else is refused with `InvalidState`.
pub fn assemble(count: usize, parts: Vec<WorkerOutput>) -> (r: Result<Vec<Item>, Error>)
    ensures
        r is Ok <==> in_order(parts@) && joined(parts@).len() == count,
        r matches Ok(all) ==> all@ == joined(parts@),
        r matches Err(e) ==> e == (Error { kind: ErrorKind::InvalidState, offset: 0 }),
{
    let ghost given = parts@;
    let mut rest = parts;
    let mut all: Vec<Item> = Vec::new();
    let mut k: usize = 0;
    proof {
        assert(given.take(0) =~= Seq::<WorkerOutput>::empty());
    }
    while k < rest.len()
        invariant
            given == parts@,
            k <= rest@.len(),
            rest@.len() == given.len(),
            forall|j: int| k <= j < given.len() ==> #[trigger] rest@[j] == given[j],
            all@ == joined(given.take(k as int)),
            forall|j: int| 0 <= j < k ==> (#[trigger] given[j]).start == joined(given.take(j)).len(),
        decreases rest@.len() - k,
    {
        assert(rest@[k as int] == given[k as int]);
        if rest[k].start != all.len() {
            assert(given[k as int].start != joined(given.take(k as int)).len());
            return Err(Error::new(ErrorKind::InvalidState, 0));
        }
        proof {
            assert(given.take(k + 1).drop_last() =~= given.take(k as int));
            assert(given.take(k + 1).last() == given[k as int]);
        }
        let ghost before = rest@;
        let mut items: Vec<Item> = Vec::new();
        std::mem::swap(&mut items, &mut rest[k].items);
        assert(items@ == given[k as int].items@);
        assert(forall|j: int| k < j < given.len() ==> #[trigger] rest@[j] == before[j]);
        all.append(&mut items);
        k = k + 1;
    }
    proof {
        assert(given.take(k as int) =~= given);
    }
    if all.len() != count {
        return Err(Error::new(ErrorKind::InvalidState, 0));
    }
    Ok(all)
}

/// Applies the policy on failures: where the batch is to fail fast and an
/// item has failed, the batch fails with the first failure; otherwise the
/// items stand as they are, failures among them. The items are kept in
/// either case.
pub fn settle(items: Vec<Item>, fail_fast: bool) -> (r: Result<Vec<Item>, FailedBatch>)
    ensures
        r == if fail_fast && first_failure(items@) is Some {
            Err::<Vec<Item>, FailedBatch>(
                FailedBatch { error: first_failure(items@)->0, items },
            )
        } else {
            Ok::<Vec<Item>, FailedBatch>(items)
        },
{
    if fail_fast {
        let mut i: usize = 0;
        let mut found: Option<Error> = None;
        proof {
            assert(items@.take(0) =~= Seq::<Item>::empty());
        }
        while i < items.len() && found.is_none()
            invariant
                i <= items@.len(),
                found == first_failure(items@.take(i as int)),
            decreases items@.len() - i,
        {
            proof {
                assert(items@.take(i + 1).drop_last() =~= items@.take(i as int));
                assert(items@.take(i + 1).last() == items@[i as int]);
            }
            if let Err(e) = &items[i].outcome {
                found = Some(*e);
            }
            i = i + 1;
        }
        match found {
            Some(error) => {
                proof {
                    lemma_failure_stays(items@, i as int);
                }
                return Err(FailedBatch { error, items });
            },
            None => {
                proof {
                    assert(items@.take(i as int) =~= items@);
                }
            },
        }
    }
    Ok(items)
}

/// A failure among the first `n` items is the first failure of all.
proof fn lemma_failure_stays(items: Seq<Item>, n: int)
    requires
        0 <= n <= items.len(),
        first_failure(items.take(n)) is Some,
    ensures
        first_failure(items) == first_failure(items.take(n)),
    decreases items.len() - n,
{
    if n < items.len() {
        assert(items.take(n + 1).drop_last() =~= items.take(n));
        lemma_failure_stays(items, n + 1);
    } else {
        assert(items.take(n) =~= items);
    }
}

/// What a batch gives. A batch of no inputs succeeds with no items.
/// Otherwise there is one item for each input, at the input's place, and
/// each is what became of that input (see `served`), whatever the number
/// of workers. If the parameters ask to fail fast and an item has failed,
/// the batch fails with the first failure and hands the items back beside
/// it; else it succeeds, failures among the items.
pub open spec fn batch_result(
    direction: Direction,
    config: ParametersView,
    inputs: Seq<Seq<u8>>,
    r: Result<Vec<Item>, FailedBatch>,
) -> bool {
    &&& inputs.len() == 0 ==> r is Ok
    &&& match r {
        Ok(items) => {
            &&& items@.len() == inputs.len()
            &&& all_served(direction, config, inputs, 0, items@)
            &&& config.fail_fast ==> first_failure(items@) is None
        },
        Err(failed) => {
            &&& config.fail_fast
            &&& failed.items@.len() == inputs.len()
            &&& all_served(direction, config, inputs, 0, failed.items@)
            &&& first_failure(failed.items@) == Some(failed.error)
        },
    }
}

/// Processes every input on its own and gives the items in the order of
/// the inputs. The inputs are shared out among as many workers as the
/// parameters ask threads for, at most one per input; the workers are run
/// one after the other. See `batch_result`.
pub fn batch_process<'a>(
    direction: Direction,
    inputs: &Vec<BufferView<'a>>,
    params: &Parameters,
) -> (r: Result<Vec<Item>, FailedBatch>)
    ensures
        batch_result(direction, params@, contents(inputs@), r),
{
    let count: usize = inputs.len();
    if count == 0 {
        return Ok(Vec::new());
    }
    let workers: usize = pool_size(params.threads(), count);
    let spans = partition(count, workers);
    let mut parts: Vec<WorkerOutput> = Vec::new();
    let mut k: usize = 0;
    while k < workers
        invariant
            1 <= workers,
            k <= workers,
            count == inputs@.len(),
            is_partition(spans@, count as int, workers as int),
            parts@.len() == k,
            forall|j: int|
                0 <= j < k ==> (#[trigger] parts@[j]).start == span_start(
                    count as int,
                    workers as int,
                    j,
                ) && parts@[j].items@.len() == span_start(count as int, workers as int, j + 1)
                    - span_start(count as int, workers as int, j) && all_served(
                    direction,
                    params@,
                    contents(inputs@),
                    parts@[j].start as int,
                    parts@[j].items@,
                ),
        decreases workers - k,
    {
        proof {
            lemma_partition_covers(count as int, workers as int, k as int);
        }
        let part = run_span(direction, inputs, spans[k], params);
        parts.push(part);
        k = k + 1;
    }
    proof {
        lemma_parts_in_order(parts@, count as int, workers as int, workers as int);
        assert(parts@.take(workers as int) =~= parts@);
        lemma_partition_covers(count as int, workers as int, 0);
        lemma_joined_served(direction, params@, contents(inputs@), parts@, workers as int);
    }
    match assemble(count, parts) {
        Ok(items) => settle(items, params.fail_fast()),
        Err(_) => unreached(),
    }
}

/// Joining parts that are in order keeps every item at its input: if each
/// part's items are what became of the inputs from the part's start on,
/// then the joined items are what became of the inputs from the first on.
pub proof fn lemma_joined_served(
    direction: Direction,
    config: ParametersView,
    inputs: Seq<Seq<u8>>,
    parts: Seq<WorkerOutput>,
    n: int,
)
    requires
        0 <= n <= parts.len(),
        in_order(parts),
        forall|k: int|
            0 <= k < parts.len() ==> all_served(
                direction,
                config,
                inputs,
                (#[trigger] parts[k]).start as int,
                parts[k].items@,
            ),
    ensures
        all_served(direction, config, inputs, 0, joined(parts.take(n))),
    decreases n,
{
    if n == 0 {
        assert(parts.take(0) =~= Seq::<WorkerOutput>::empty());
    } else {
        lemma_joined_served(direction, config, inputs, parts, n - 1);
        assert(parts.take(n).drop_last() =~= parts.take(n - 1));
        assert(parts.take(n).last() == parts[n - 1]);
        let head = joined(parts.take(n - 1));
        let tail = parts[n - 1].items@;
        assert(parts[n - 1].start == head.len());
        assert(all_served(direction, config, inputs, parts[n - 1].start as int, tail));
        assert forall|m: int| 0 <= m < (head + tail).len() implies served(
            direction,
            config,
            inputs[0 + m],
            #[trigger] (head + tail)[m],
        ) by {
            if m < head.len() {
                assert((head + tail)[m] == head[m]);
            } else {
                assert((head + tail)[m] == tail[m - head.len()]);
                assert(served(direction, config, inputs[parts[n - 1].start + (m - head.len())], tail[m - head.len()]));
            }
        }
    }
}

/// Parts of the lengths of the spans, starting where the spans start, are
/// in order.
proof fn lemma_parts_in_order(parts: Seq<WorkerOutput>, count: int, workers: int, k: int)
    requires
        0 <= count,
        1 <= workers,
        parts.len() == workers,
        0 <= k <= workers,
        forall|j: int|
            0 <= j < workers ==> (#[trigger] parts[j]).start == span_start(count, workers, j)
                && parts[j].items@.len() == span_start(count, workers, j + 1) - span_start(
                count,
                workers,
                j,
            ),
    ensures
        joined(parts.take(k)).len() == span_start(count, workers, k),
        in_order(parts.take(k)),
    decreases k,
{
    if k == 0 {
        lemma_partition_covers(count, workers, 0);
        assert(parts.take(0) =~= Seq::<WorkerOutput>::empty());
    } else {
        lemma_parts_in_order(parts, count, workers, k - 1);
        assert(parts.take(k).drop_last() =~= parts.take(k - 1));
        assert(parts.take(k).last() == parts[k - 1]);
        assert forall|j: int| 0 <= j < parts.take(k).len() implies (#[trigger] parts.take(
            k,
        )[j]).start == joined(parts.take(k).take(j)).len() by {
            assert(parts.take(k).take(j) =~= parts.take(j));
            if j < k - 1 {
                assert(parts.take(k - 1)[j] == parts[j]);
                assert(parts.take(k - 1).take(j) =~= parts.take(j));
            } else {
                assert(parts.take(j) =~= parts.take(k - 1));
            }
        }
    }
}

} // verus!
