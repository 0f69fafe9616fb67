//! The pull side: a stream that is read from, and that asks for input
//! when it has none left.
//!
//! A reader is `Open` until the first read, `Reading` after it, and at
//! `EndOfFrame` for good once the frame has ended or the stream has
//! failed. The source of the input is the caller's: a read that cannot go
//! on without input returns `NeedInput`, the caller fetches some and hands
//! it over with `supply`, or says with `finish` that there is no more, and
//! reads again.

use vstd::prelude::*;
use vstd::slice::slice_subrange;
use vstd::slice::slice_to_vec;
use crate::codec::faulted;
use crate::codec::fresh;
use crate::codec::Offer;
use crate::codec::CodecContext;
use crate::codec::ContextView;
use crate::codec::Direction;
use crate::codec::Directive;
use crate::codec::StepStatus;
use crate::error::clip;
use crate::error::Error;
use crate::error::ErrorKind;
use crate::params::Parameters;

verus! {

/// Where a reader stands.
#[derive(Clone, Copy, Debug, PartialEq, Eq, Structural)]
pub enum ReaderState {
    Open,
    Reading,
    EndOfFrame,
}

/// What a read gave.
#[derive(Debug)]
pub enum ReadOutcome {
    /// Output. It is empty only at the end of the stream, or when no
    /// bytes were asked for.
    Data(Vec<u8>),
    /// Nothing can be read until the source has supplied more input or
    /// has been declared finished.
    NeedInput,
}

/// The result of a read, with the bytes as a sequence: `Some` for data,
/// `None` for a need of input.
pub open spec fn seen(r: Result<ReadOutcome, Error>) -> Result<Option<Seq<u8>>, Error> {
    match r {
        Ok(ReadOutcome::Data(bytes)) => Ok(Some(bytes@)),
        Ok(ReadOutcome::NeedInput) => Ok(None),
        Err(e) => Err(e),
    }
}

/// What a reader is to its users.
pub struct ReaderView {
    pub state: ReaderState,
    /// The reader's codec context: everything it has taken and given.
    pub context: ContextView,
    /// Every byte the source has supplied so far, in order.
    pub supplied: Seq<u8>,
    /// Whether the source has been declared finished.
    pub source_done: bool,
    /// Whether the codec has said that output waits in it.
    pub backlog: bool,
    /// Whether the codec has been told that the input is over.
    pub ending: bool,
    /// A failure that the next read will report. It is kept back when a
    /// read that had already gathered output ran into it, so that the
    /// output is handed out first.
    pub deferred: Option<Error>,
    /// Every byte handed to the caller so far, in order.
    pub delivered: Seq<u8>,
}

impl ReaderView {
    /// Whether the codec has taken everything that was supplied.
    pub open spec fn starved(self) -> bool {
        self.context.taken.len() == self.supplied.len()
    }

    /// What holds of every reader: what the codec has taken is the start
    /// of what was supplied; all that the codec gave has been handed to
    /// the caller, byte for byte and in order; an open reader has seen no
    /// traffic; and a failure is kept back only while reading.
    pub open spec fn consistent(self) -> bool {
        &&& self.context.taken.len() <= self.supplied.len()
        &&& self.context.taken == self.supplied.take(self.context.taken.len() as int)
        &&& self.context.given == self.delivered
        &&& self.state == ReaderState::Open ==> self.context.taken.len() == 0
            && self.context.given.len() == 0 && !self.backlog && !self.ending
        &&& self.ending ==> self.source_done && self.context.direction == Direction::Compress
        &&& self.deferred is Some ==> self.state == ReaderState::Reading && self.deferred
            == self.context.fault
    }

    /// Whether the input has run out for good before the frame has ended:
    /// the source is finished, everything it supplied has been taken, no
    /// output waits in the codec, and no failure is kept back.
    pub open spec fn exhausted(self) -> bool {
        self.state != ReaderState::EndOfFrame && self.source_done && self.starved()
            && !self.backlog && self.deferred is None
    }
}

/// Whether an offer is one that a read of up to `n` bytes makes: it gives
/// room for at least one byte and at most `n`, and offers as input
/// exactly what was supplied and not yet taken. It is made under
/// `Continue`, or, only for a compressor whose source is finished and
/// which has taken all that was supplied, under `End`.
pub open spec fn read_offer(pre: ReaderView, n: usize, offer: Offer) -> bool {
    &&& 1 <= offer.room <= n
    &&& pre.context.taken.len() <= offer.at <= pre.supplied.len()
    &&& offer.input == pre.supplied.skip(offer.at as int)
    &&& offer.directive == Directive::End || offer.directive == Directive::Continue
    &&& offer.directive == Directive::End ==> pre.context.direction == Direction::Compress
        && pre.source_done && offer.input.len() == 0
}

/// What a read has offered the codec: the offers that the context's
/// record has gained are all offers of the read, and the record has lost
/// none.
pub open spec fn read_offers(pre: ReaderView, n: usize, post: ReaderView) -> bool {
    &&& pre.context.offers.len() <= post.context.offers.len()
    &&& post.context.offers.take(pre.context.offers.len() as int) == pre.context.offers
    &&& forall|i: int|
        pre.context.offers.len() <= i < post.context.offers.len() ==> read_offer(
            pre,
            n,
            #[trigger] post.context.offers[i],
        )
}

/// What two views of one reader share across a read.
pub open spec fn same_reader(pre: ReaderView, post: ReaderView) -> bool {
    &&& post.context.direction == pre.context.direction
    &&& post.context.config == pre.context.config
    &&& post.context.settings == pre.context.settings
    &&& post.supplied == pre.supplied
    &&& post.source_done == pre.source_done
    &&& post.context.taken.len() >= pre.context.taken.len()
}

/// `read` of up to `n` bytes.
///
/// At `EndOfFrame`, and for `n` of zero, it gives no data and changes
/// nothing: reading past the end is never an error.
///
/// A failure that was kept back is reported, and ends the stream.
///
/// A decompressing reader whose input is exhausted ends there: with
/// `TruncatedInput` at the number of bytes taken, or, where truncation is
/// tolerated, with no data.
///
/// A reader whose codec has taken all that was supplied and holds no
/// output, while the source is not finished, asks for input: the read
/// gives `NeedInput` and changes nothing but the state, which is
/// `Reading`. The codec is not asked.
///
/// Otherwise data, when it comes, is what the codec gave during the read,
/// at most `n` bytes. It is empty only if the stream ended without giving
/// any. It falls short of `n` only at the end of the stream; or when the
/// codec has taken all that was supplied and either more may come or a
/// decompressing reader has run out of input for good; or when a failure
/// is kept back. The stream ends when the frame does, or, where
/// truncation is tolerated, when the input is exhausted. Output goes
/// first: a need of input is reported only when the source is not
/// finished, everything supplied has been taken, and the read has
/// nothing to hand out; and a failure is reported at once only when the
/// read has nothing to hand out, and is kept back for the next read
/// otherwise. Every failure ends the stream when it is reported. A
/// failure is the codec's, or that the codec has twice in a row neither
/// taken nor given (`InvalidState`): either is kept in the context's
/// record as its fault and is borne out by the offers of the read (see
/// `faulted`). The one failure that is not the context's is
/// `TruncatedInput`, when a decompressing reader runs out of input for
/// good in the middle of a read. What a read offers the codec is in the
/// context's record (see `read_offers`); a reader never asks for input
/// while the codec is known to hold output, unless a step has shown that
/// it holds none after all.
pub open spec fn read_result(
    pre: ReaderView,
    n: usize,
    r: Result<Option<Seq<u8>>, Error>,
    post: ReaderView,
) -> bool {
    &&& same_reader(pre, post)
    &&& post.consistent()
    &&& read_offers(pre, n, post)
    &&& if pre.state == ReaderState::EndOfFrame || n == 0 {
        r == Ok::<Option<Seq<u8>>, Error>(Some(Seq::empty())) && post == pre
    } else if pre.deferred is Some {
        &&& r == Err::<Option<Seq<u8>>, Error>(pre.deferred->0)
        &&& post == (ReaderView { state: ReaderState::EndOfFrame, deferred: None, ..pre })
    } else if pre.exhausted() && pre.context.direction == Direction::Decompress {
        &&& post == (ReaderView { state: ReaderState::EndOfFrame, ..pre })
        &&& r == if pre.context.config.tolerate_truncation {
            Ok::<Option<Seq<u8>>, Error>(Some(Seq::empty()))
        } else {
            Err::<Option<Seq<u8>>, Error>(
                Error { kind: ErrorKind::TruncatedInput, offset: clip(pre.context.taken.len()) },
            )
        }
    } else if pre.starved() && !pre.source_done && !pre.backlog {
        &&& r == Ok::<Option<Seq<u8>>, Error>(None)
        &&& post == (ReaderView { state: ReaderState::Reading, ..pre })
    } else {
        match r {
            Ok(Some(out)) => {
                &&& out.len() <= n
                &&& post.delivered == pre.delivered + out
                &&& post.state == ReaderState::EndOfFrame ==> post.context.complete || (
                post.context.config.tolerate_truncation && post.context.direction
                    == Direction::Decompress && post.source_done && post.starved()
                    && !post.backlog)
                &&& post.state != ReaderState::EndOfFrame ==> post.state == ReaderState::Reading
                    && out.len() > 0
                &&& out.len() < n ==> post.state == ReaderState::EndOfFrame || post.deferred
                    is Some || (post.starved() && !post.backlog && !post.ending && (
                post.source_done ==> post.context.direction == Direction::Decompress))
                &&& post.deferred matches Some(kept) ==> faulted(post.context, kept)
                    && post.context.offers.len() > pre.context.offers.len()
            },
            Ok(None) => {
                &&& post.state == ReaderState::Reading
                &&& !post.source_done
                &&& post.starved()
                &&& !post.backlog
                &&& post.deferred is None
                &&& post.delivered == pre.delivered
                &&& !pre.backlog || post.context.offers.len() > pre.context.offers.len()
            },
            Err(e) => {
                &&& post.state == ReaderState::EndOfFrame
                &&& post.delivered == pre.delivered
                &&& e.offset == clip(post.context.taken.len())
                &&& {
                    ||| faulted(post.context, e) && post.context.offers.len()
                        > pre.context.offers.len()
                    ||| {
                        &&& post.context.fault is None
                        &&& e.kind == ErrorKind::TruncatedInput
                        &&& post.context.direction == Direction::Decompress
                        &&& !post.context.config.tolerate_truncation
                        &&& post.source_done
                        &&& post.starved()
                        &&& !post.backlog
                    }
                }
            },
        }
    }
}

/// Truncation is reported. When a decompressing reader's source has been
/// declared finished, the codec has taken all it supplied, no output
/// waits, and the frame has still not ended, then the next read of one
/// byte or more fails with `TruncatedInput` at the number of bytes taken,
/// unless truncation is tolerated, and ends the stream; every read after
/// it gives no data and no error.
pub proof fn lemma_truncation_is_reported(
    before: ReaderView,
    n: usize,
    first: Result<Option<Seq<u8>>, Error>,
    between: ReaderView,
    m: usize,
    second: Result<Option<Seq<u8>>, Error>,
    after: ReaderView,
)
    requires
        before.exhausted(),
        before.context.direction == Direction::Decompress,
        !before.context.config.tolerate_truncation,
        n > 0,
        read_result(before, n, first, between),
        read_result(between, m, second, after),
    ensures
        first == Err::<Option<Seq<u8>>, Error>(
            Error { kind: ErrorKind::TruncatedInput, offset: clip(before.supplied.len()) },
        ),
        between.state == ReaderState::EndOfFrame,
        second == Ok::<Option<Seq<u8>>, Error>(Some(Seq::empty())),
        after == between,
{
}

/// A pull-style stream over a codec context of its own.
pub struct StreamReader {
    ctx: CodecContext,
    state: ReaderState,
    tolerate: bool,
    input: Vec<u8>,
    cursor: usize,
    source_done: bool,
    backlog: bool,
    ending: bool,
    deferred: Option<Error>,
    supplied: Ghost<Seq<u8>>,
    delivered: Ghost<Seq<u8>>,
}

impl View for StreamReader {
    type V = ReaderView;

    closed spec fn view(&self) -> ReaderView {
        ReaderView {
            state: self.state,
            context: self.ctx@,
            supplied: self.supplied@,
            source_done: self.source_done,
            backlog: self.backlog,
            ending: self.ending,
            deferred: self.deferred,
            delivered: self.delivered@,
        }
    }
}

impl StreamReader {
    /// What holds of every reader that this module hands out.
    pub closed spec fn wf(&self) -> bool {
        &&& self.ctx.wf()
        &&& self@.consistent()
        &&& self.cursor <= self.input@.len()
        &&& self.ending ==> self.cursor == self.input@.len()
        &&& self.supplied@ == self.ctx@.taken + self.input@.skip(self.cursor as int)
        &&& self.state != ReaderState::EndOfFrame && self.deferred is None ==> self.ctx.live()
        &&& self.state == ReaderState::EndOfFrame ==> !self.ctx.live() && self.deferred is None
        &&& self.deferred is Some ==> !self.ctx.live()
        &&& self.tolerate == self.ctx@.config.tolerate_truncation
    }

    /// Every reader is consistent.
    pub proof fn lemma_wf_view(&self)
        requires
            self.wf(),
        ensures
            self@.consistent(),
    {
    }

    /// Opens a reader over a new context. It fails as making the context
    /// fails.
    pub fn open(direction: Direction, params: &Parameters) -> (r: Result<StreamReader, Error>)
        ensures
            match r {
                Ok(reader) => {
                    &&& reader.wf()
                    &&& reader@ == (ReaderView {
                        state: ReaderState::Open,
                        context: fresh(direction, params@),
                        supplied: Seq::empty(),
                        source_done: false,
                        backlog: false,
                        ending: false,
                        deferred: None,
                        delivered: Seq::empty(),
                    })
                },
                Err(e) => {
                    &&& e.offset == 0
                    &&& e.kind == ErrorKind::InvalidParameter || e.kind
                        == ErrorKind::ResourceExhausted
                },
            },
    {
        let ctx = match CodecContext::create(direction, params) {
            Ok(ctx) => ctx,
            Err(e) => {
                return Err(e);
            },
        };
        let reader = StreamReader {
            ctx,
            state: ReaderState::Open,
            tolerate: params.tolerate_truncation(),
            input: Vec::new(),
            cursor: 0,
            source_done: false,
            backlog: false,
            ending: false,
            deferred: None,
            supplied: Ghost(Seq::empty()),
            delivered: Ghost(Seq::empty()),
        };
        proof {
            assert(reader.supplied@ =~= reader.ctx@.taken + reader.input@.skip(0));
            assert(reader.ctx@.taken =~= reader.supplied@.take(0));
        }
        Ok(reader)
    }

    /// Where the reader stands.
    pub fn state(&self) -> (state: ReaderState)
        ensures
            state == self@.state,
    {
        self.state
    }

    /// Hands the reader more input from the source. Once the source has
    /// been declared finished, at the end of the frame, and while a
    /// failure is kept back, input is refused with `InvalidState` and
    /// nothing changes.
    pub fn supply(&mut self, bytes: &[u8]) -> (r: Result<(), Error>)
        requires
            old(self).wf(),
        ensures
            final(self).wf(),
            match r {
                Ok(()) => {
                    &&& !old(self)@.source_done
                    &&& old(self)@.state != ReaderState::EndOfFrame
                    &&& old(self)@.deferred is None
                    &&& final(self)@ == (ReaderView {
                        supplied: old(self)@.supplied + bytes@,
                        ..old(self)@
                    })
                },
                Err(e) => {
                    &&& old(self)@.source_done || old(self)@.state == ReaderState::EndOfFrame
                        || old(self)@.deferred is Some
                    &&& e == (Error {
                        kind: ErrorKind::InvalidState,
                        offset: clip(old(self)@.context.taken.len()),
                    })
                    &&& final(self)@ == old(self)@
                },
            },
    {
        if self.source_done || self.state == ReaderState::EndOfFrame || self.deferred.is_some() {
            return Err(Error::new(ErrorKind::InvalidState, self.ctx.offset()));
        }
        if self.cursor == self.input.len() {
            self.input.clear();
            self.cursor = 0;
        }
        let mut more = slice_to_vec(bytes);
        self.input.append(&mut more);
        self.supplied = Ghost(self.supplied@ + bytes@);
        proof {
            assert(self.supplied@ =~= self.ctx@.taken + self.input@.skip(self.cursor as int));
            assert(self.ctx@.taken =~= self.supplied@.take(self.ctx@.taken.len() as int));
        }
        Ok(())
    }

    /// Declares the source finished: no input will follow. Saying so
    /// again changes nothing.
    pub fn finish(&mut self)
        requires
            old(self).wf(),
        ensures
            final(self).wf(),
            final(self)@ == (ReaderView { source_done: true, ..old(self)@ }),
    {
        self.source_done = true;
    }

    /// Ends the stream and releases its context.
    fn end(&mut self)
        requires
            old(self).ctx.wf(),
        ensures
            final(self).ctx.wf(),
            !final(self).ctx.live(),
            final(self).ctx@ == old(self).ctx@,
            final(self).state == ReaderState::EndOfFrame,
            final(self).tolerate == old(self).tolerate,
            final(self).input == old(self).input,
            final(self).cursor == old(self).cursor,
            final(self).source_done == old(self).source_done,
            final(self).backlog == old(self).backlog,
            final(self).ending == old(self).ending,
            final(self).deferred is None,
            final(self).supplied == old(self).supplied,
            final(self).delivered == old(self).delivered,
    {
        self.ctx.free();
        self.state = ReaderState::EndOfFrame;
        self.deferred = None;
    }

    /// Reports a failure: at once if the read has nothing to hand out,
    /// and else at the next read, behind the output.
    fn report(&mut self, e: Error, out: Vec<u8>) -> (r: Result<ReadOutcome, Error>)
        requires
            old(self).ctx.wf(),
            !old(self).ctx.live(),
            old(self).ctx@.fault == Some(e),
            old(self).state == ReaderState::Reading,
            old(self).deferred is None,
        ensures
            final(self).ctx == old(self).ctx,
            final(self).tolerate == old(self).tolerate,
            final(self).input == old(self).input,
            final(self).cursor == old(self).cursor,
            final(self).source_done == old(self).source_done,
            final(self).backlog == old(self).backlog,
            final(self).ending == old(self).ending,
            final(self).supplied == old(self).supplied,
            final(self).delivered@ == old(self).delivered@ + out@,
            if out@.len() == 0 {
                &&& r == Err::<ReadOutcome, Error>(e)
                &&& final(self).state == ReaderState::EndOfFrame
                &&& final(self).deferred is None
            } else {
                &&& r == Ok::<ReadOutcome, Error>(ReadOutcome::Data(out))
                &&& final(self).state == ReaderState::Reading
                &&& final(self).deferred == Some(e)
            },
    {
        self.delivered = Ghost(self.delivered@ + out@);
        if out.len() == 0 {
            self.state = ReaderState::EndOfFrame;
            Err(e)
        } else {
            self.deferred = Some(e);
            Ok(ReadOutcome::Data(out))
        }
    }

    /// Reads up to `n` bytes of output. See `read_result`.
    pub fn read(&mut self, n: usize) -> (r: Result<ReadOutcome, Error>)
        requires
            old(self).wf(),
        ensures
            final(self).wf(),
            read_result(old(self)@, n, seen(r), final(self)@),
    {
        proof {
            assert(self.ctx@.offers.take(self.ctx@.offers.len() as int) =~= self.ctx@.offers);
        }
        if self.state == ReaderState::EndOfFrame || n == 0 {
            return Ok(ReadOutcome::Data(Vec::new()));
        }
        if let Some(e) = self.deferred {
            self.state = ReaderState::EndOfFrame;
            self.deferred = None;
            return Err(e);
        }
        let direction = self.ctx.direction();
        if direction == Direction::Decompress && self.source_done && self.cursor
            == self.input.len() && !self.backlog {
            let offset = self.ctx.offset();
            self.end();
            proof {
                assert(old(self).input@.skip(old(self).cursor as int) =~= Seq::<u8>::empty());
                assert(old(self).supplied@ =~= old(self).ctx@.taken);
            }
            if self.tolerate {
                return Ok(ReadOutcome::Data(Vec::new()));
            } else {
                return Err(Error::new(ErrorKind::TruncatedInput, offset));
            }
        }
        proof {
            assert(self.supplied@.len() == self.ctx@.taken.len() + (self.input@.len()
                - self.cursor));
        }
        self.state = ReaderState::Reading;
        if self.cursor == self.input.len() && !self.source_done && !self.backlog {
            return Ok(ReadOutcome::NeedInput);
        }
        let mut out: Vec<u8> = Vec::new();
        let mut idle: bool = false;
        proof {
            assert(self.delivered@ + out@ =~= self.delivered@);
            assert(old(self).ctx@.given + out@ =~= old(self).ctx@.given);
            assert(self.ctx@.offers.take(self.ctx@.offers.len() as int) =~= self.ctx@.offers);
            self.ctx.lemma_live_has_no_fault();
        }
        loop
            invariant
                self.ctx.wf(),
                self.ctx.live(),
                self.state == ReaderState::Reading,
                self.tolerate == old(self).tolerate,
                self.tolerate == self.ctx@.config.tolerate_truncation,
                self.source_done == old(self).source_done,
                self.supplied == old(self).supplied,
                self.delivered == old(self).delivered,
                self.cursor <= self.input@.len(),
                self.supplied@ == self.ctx@.taken + self.input@.skip(self.cursor as int),
                self.ctx@.direction == old(self).ctx@.direction,
                self.ctx@.config == old(self).ctx@.config,
                self.ctx@.settings == old(self).ctx@.settings,
                self.ctx@.taken.len() >= old(self).ctx@.taken.len(),
                self.ctx@.given == old(self).ctx@.given + out@,
                self.ending ==> self.source_done && direction == Direction::Compress
                    && self.cursor == self.input@.len(),
                self.deferred is None,
                old(self).deferred is None,
                self.ctx@.fault is None,
                old(self).ctx@.given == old(self).delivered@,
                direction == self.ctx@.direction,
                out@.len() < n,
                old(self)@.state != ReaderState::EndOfFrame,
                !(old(self)@.exhausted() && old(self)@.context.direction
                    == Direction::Decompress),
                !(old(self)@.starved() && !old(self)@.source_done && !old(self)@.backlog),
                self.ctx@.taken.len() <= self.supplied@.len(),
                self.ctx@.taken == self.supplied@.take(self.ctx@.taken.len() as int),
                read_offers(old(self)@, n, self@),
                self.backlog != old(self).backlog ==> self.ctx@.offers.len()
                    > old(self).ctx@.offers.len(),
                idle ==> self.ctx@.offers.len() > old(self).ctx@.offers.len()
                    && self.ctx@.offers.last().idle() && self.ctx@.offers.last().room >= 1,
            decreases (self.input@.len() - self.cursor) + (n - out@.len()), if idle {
                    0int
                } else {
                    1int
                },
        {
            let starved = self.cursor == self.input.len();
            if starved && !self.backlog && !self.ending {
                proof {
                    assert(self.input@.skip(self.cursor as int) =~= Seq::<u8>::empty());
                    assert(self.supplied@ =~= self.ctx@.taken);
                    assert(self.ctx@.taken =~= self.supplied@.take(
                        self.ctx@.taken.len() as int,
                    ));
                }
                if !self.source_done {
                    if out.len() > 0 {
                        self.delivered = Ghost(self.delivered@ + out@);
                        return Ok(ReadOutcome::Data(out));
                    }
                    proof {
                        assert(old(self).ctx@.given + out@ =~= old(self).ctx@.given);
                    }
                    return Ok(ReadOutcome::NeedInput);
                }
                match direction {
                    Direction::Compress => {
                        self.ending = true;
                    },
                    Direction::Decompress => {
                        if out.len() > 0 {
                            self.delivered = Ghost(self.delivered@ + out@);
                            return Ok(ReadOutcome::Data(out));
                        }
                        let offset = self.ctx.offset();
                        self.end();
                        if self.tolerate {
                            proof {
                                assert(self.delivered@ + out@ =~= self.delivered@);
                            }
                            return Ok(ReadOutcome::Data(out));
                        } else {
                            return Err(Error::new(ErrorKind::TruncatedInput, offset));
                        }
                    },
                }
            }
            let directive = if self.ending {
                Directive::End
            } else {
                Directive::Continue
            };
            let room: usize = n - out.len();
            let rest = slice_subrange(self.input.as_slice(), self.cursor, self.input.len());
            let ghost taken_before = self.ctx@.taken;
            let ghost out_before = out@;
            let ghost before = self@;
            proof {
                assert(rest@ =~= self.input@.skip(self.cursor as int));
                assert(self.supplied@.skip(self.ctx@.taken.len() as int) =~= rest@);
                assert(self.ending ==> rest@.len() == 0) by {
                    if self.ending {
                        assert(self.cursor == self.input@.len());
                    }
                }
            }
            let mut step = match self.ctx.step(rest, room, directive) {
                Ok(step) => step,
                Err(e) => {
                    proof {
                        lemma_prefix_of_supplied(
                            self.supplied@,
                            self.ctx@.taken,
                            self.input@.skip(self.cursor as int),
                        );
                        lemma_read_offers_extend(old(self)@, n, before, self@);
                    }
                    return self.report(e, out);
                },
            };
            let consumed: usize = step.consumed;
            let produced: usize = step.produced.len();
            proof {
                let pending = self.input@.skip(self.cursor as int);
                assert(rest@ =~= pending);
                assert(self.supplied@ =~= self.ctx@.taken + self.input@.skip(
                    self.cursor + consumed,
                )) by {
                    assert(pending =~= pending.take(consumed as int) + self.input@.skip(
                        self.cursor + consumed,
                    ));
                    assert(taken_before + pending =~= (taken_before + pending.take(
                        consumed as int,
                    )) + self.input@.skip(self.cursor + consumed));
                }
                assert(self.ctx@.given =~= old(self).ctx@.given + (out_before
                    + step.produced@));
                lemma_prefix_of_supplied(
                    self.supplied@,
                    self.ctx@.taken,
                    self.input@.skip(self.cursor + consumed),
                );
                lemma_read_offers_extend(old(self)@, n, before, self@);
            }
            self.cursor = self.cursor + consumed;
            out.append(&mut step.produced);
            self.backlog = match step.status {
                StepStatus::HaveMoreOutput => true,
                _ => false,
            };
            match step.status {
                StepStatus::FrameComplete => {
                    self.end();
                    self.delivered = Ghost(self.delivered@ + out@);
                    return Ok(ReadOutcome::Data(out));
                },
                _ => {},
            }
            if out.len() == n {
                self.delivered = Ghost(self.delivered@ + out@);
                return Ok(ReadOutcome::Data(out));
            }
            if consumed == 0 && produced == 0 {
                if idle {
                    proof {
                        let offers = self.ctx@.offers;
                        assert(offers[offers.len() - 2] == before.context.offers.last()) by {
                            assert(offers.drop_last()[offers.len() - 2] == offers[offers.len()
                                - 2]);
                        }
                    }
                    let e = self.ctx.give_up();
                    return self.report(e, out);
                }
                idle = true;
            } else {
                idle = false;
            }
        }
    }
}

/// One more offer of a read keeps the offers of the read what they are to
/// be.
proof fn lemma_read_offers_extend(start: ReaderView, n: usize, before: ReaderView, after: ReaderView)
    requires
        read_offers(start, n, before),
        after.context.offers.len() == before.context.offers.len() + 1,
        after.context.offers.drop_last() == before.context.offers,
        read_offer(start, n, after.context.offers.last()),
    ensures
        read_offers(start, n, after),
{
    let k = start.context.offers.len() as int;
    assert(after.context.offers.take(k) =~= start.context.offers) by {
        assert forall|i: int| 0 <= i < k implies after.context.offers[i]
            == start.context.offers[i] by {
            assert(after.context.offers.drop_last()[i] == after.context.offers[i]);
            assert(before.context.offers.take(k)[i] == before.context.offers[i]);
        }
    }
    assert forall|i: int| k <= i < after.context.offers.len() implies read_offer(
        start,
        n,
        #[trigger] after.context.offers[i],
    ) by {
        if i < before.context.offers.len() {
            assert(after.context.offers.drop_last()[i] == after.context.offers[i]);
        }
    }
}

proof fn lemma_prefix_of_supplied(supplied: Seq<u8>, taken: Seq<u8>, rest: Seq<u8>)
    requires
        supplied == taken + rest,
    ensures
        taken.len() <= supplied.len(),
        taken == supplied.take(taken.len() as int),
{
    assert(taken =~= supplied.take(taken.len() as int));
}

} // verus!
