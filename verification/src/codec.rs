//! The codec binding: contexts of the Zstandard library behind handles
//! that are released once, and the single step that every mode of
//! processing is built from.
//!
//! The library itself is not verified. What is assumed of it is written
//! on the few functions at the end of this file that call it, and it is
//! little: a step takes no more input than it was offered and gives no
//! more output than it was given room for. Which bytes come out is the
//! codec's affair. Each context therefore carries a record of the bytes it
//! has taken and given, kept by verified code, and the contracts of the
//! modes built on it say how the caller's bytes relate to that record.

use vstd::pervasive::unreached;
use vstd::prelude::*;
use zstd::zstd_safe::CCtx;
use zstd::zstd_safe::CParameter;
use zstd::zstd_safe::DCtx;
use zstd::zstd_safe::DParameter;
use zstd::zstd_safe::InBuffer;
use zstd::zstd_safe::OutBuffer;
use zstd::zstd_safe::zstd_sys::ZSTD_EndDirective;
use crate::error::advance;
use crate::error::clip;
use crate::error::kind_at_use;
use crate::error::native_number;
use crate::error::Error;
use crate::error::ErrorKind;
use crate::error::lemma_advance_clip;
use crate::params::Parameters;
use crate::params::ParametersView;

verus! {

/// The most room for output that a single step is given.
pub const ROOM_MAX: usize = 0x4000_0000;

/// Which way a context works.
#[derive(Clone, Copy, Debug, PartialEq, Eq, Structural)]
pub enum Direction {
    Compress,
    Decompress,
}

/// What a step asks of the codec beyond taking input.
#[derive(Clone, Copy, Debug, PartialEq, Eq, Structural)]
pub enum Directive {
    /// Take input; emit output when the codec sees fit.
    Continue,
    /// Emit everything taken so far, and keep the frame open.
    Flush,
    /// Emit everything and end the frame.
    End,
}

/// How a step left the codec.
#[derive(Clone, Copy, Debug, PartialEq, Eq, Structural)]
pub enum StepStatus {
    /// Everything offered was taken and nothing waits to be emitted.
    NeedMoreInput,
    /// Output waits for room, or input was left untaken.
    HaveMoreOutput,
    /// The frame has ended and all of it has been emitted.
    FrameComplete,
}

/// What one step did.
#[derive(Debug)]
pub struct Step {
    /// How many bytes of the input were taken, from its start.
    pub consumed: usize,
    /// The bytes that were emitted.
    pub produced: Vec<u8>,
    /// The codec's own estimate of what is left: for compression a lower
    /// bound on the bytes still to emit, for decompression zero exactly
    /// when a frame has ended.
    pub pending: usize,
    pub status: StepStatus,
}

/// The room a step really gets when asked for `room`.
pub open spec fn effective_room(room: usize) -> usize {
    if room > ROOM_MAX {
        ROOM_MAX
    } else {
        room
    }
}

/// Whether a directive can be given to a context of the direction:
/// decompression knows neither flushing nor ending.
pub open spec fn directive_fits(direction: Direction, directive: Directive) -> bool {
    direction == Direction::Compress || directive == Directive::Continue
}

/// The status of a step, from what was offered and what came back.
///
/// A frame is complete when the codec reports nothing pending, for
/// compression only under `End` and with all input taken. Otherwise
/// output goes first: as long as input was left, a flush or an end is
/// unfinished, or the room was filled while more is pending, the step
/// reports output, and only else a need for input.
pub open spec fn status_of(
    direction: Direction,
    directive: Directive,
    offered: int,
    room: int,
    consumed: int,
    produced: int,
    pending: int,
) -> StepStatus {
    match direction {
        Direction::Compress => match directive {
            Directive::End => if pending == 0 && consumed == offered {
                StepStatus::FrameComplete
            } else {
                StepStatus::HaveMoreOutput
            },
            Directive::Flush => if pending == 0 && consumed == offered {
                StepStatus::NeedMoreInput
            } else {
                StepStatus::HaveMoreOutput
            },
            Directive::Continue => if consumed < offered || (pending != 0 && produced == room) {
                StepStatus::HaveMoreOutput
            } else {
                StepStatus::NeedMoreInput
            },
        },
        Direction::Decompress => if pending == 0 {
            StepStatus::FrameComplete
        } else if consumed < offered || produced == room {
            StepStatus::HaveMoreOutput
        } else {
            StepStatus::NeedMoreInput
        },
    }
}

/// Reads the status of a step from what was offered and what came back.
pub fn interpret(
    direction: Direction,
    directive: Directive,
    offered: usize,
    room: usize,
    consumed: usize,
    produced: usize,
    pending: usize,
) -> (status: StepStatus)
    ensures
        status == status_of(
            direction,
            directive,
            offered as int,
            room as int,
            consumed as int,
            produced as int,
            pending as int,
        ),
{
    match direction {
        Direction::Compress => match directive {
            Directive::End => if pending == 0 && consumed == offered {
                StepStatus::FrameComplete
            } else {
                StepStatus::HaveMoreOutput
            },
            Directive::Flush => if pending == 0 && consumed == offered {
                StepStatus::NeedMoreInput
            } else {
                StepStatus::HaveMoreOutput
            },
            Directive::Continue => if consumed < offered || (pending != 0 && produced == room) {
                StepStatus::HaveMoreOutput
            } else {
                StepStatus::NeedMoreInput
            },
        },
        Direction::Decompress => if pending == 0 {
            StepStatus::FrameComplete
        } else if consumed < offered || produced == room {
            StepStatus::HaveMoreOutput
        } else {
            StepStatus::NeedMoreInput
        },
    }
}

/// One thing that a context is told when it is set up.
#[derive(Clone, Copy, Debug)]
pub enum Setting<'a> {
    /// The compression level.
    Level(i32),
    /// The window of a compressor, as a power of two.
    WindowLog(u32),
    /// That a compressor is to end each frame with a checksum.
    Checksum,
    /// The largest window that a decompressor accepts, as a power of two.
    WindowLimit(u32),
    /// The content of the dictionary.
    Dictionary(&'a [u8]),
}

/// A setting, with the dictionary's content as a sequence.
pub enum SettingView {
    Level(int),
    WindowLog(int),
    Checksum,
    WindowLimit(int),
    Dictionary(Seq<u8>),
}

impl<'a> View for Setting<'a> {
    type V = SettingView;

    open spec fn view(&self) -> SettingView {
        match *self {
            Setting::Level(level) => SettingView::Level(level as int),
            Setting::WindowLog(log) => SettingView::WindowLog(log as int),
            Setting::Checksum => SettingView::Checksum,
            Setting::WindowLimit(log) => SettingView::WindowLimit(log as int),
            Setting::Dictionary(content) => SettingView::Dictionary(content@),
        }
    }
}

/// The settings of a list, each as its view.
pub open spec fn setting_views<'a>(list: Seq<Setting<'a>>) -> Seq<SettingView> {
    Seq::new(list.len(), |i: int| list[i]@)
}

/// Whether a setting is one for the direction.
pub open spec fn setting_fits(direction: Direction, setting: SettingView) -> bool {
    match setting {
        SettingView::Level(_) => direction == Direction::Compress,
        SettingView::WindowLog(_) => direction == Direction::Compress,
        SettingView::Checksum => direction == Direction::Compress,
        SettingView::WindowLimit(_) => direction == Direction::Decompress,
        SettingView::Dictionary(_) => true,
    }
}

/// The dictionary of the parameters as a setting, if they have one.
pub open spec fn dictionary_setting(config: ParametersView) -> Seq<SettingView> {
    match config.dictionary {
        Some(content) => seq![SettingView::Dictionary(content)],
        None => Seq::empty(),
    }
}

/// What a context for the direction is told, in this order, when it is
/// set up from the parameters. A compressor is told its level, then its
/// window if the parameters choose one, then to write checksums if they
/// ask for them; a decompressor is told the limit of its window if the
/// parameters choose a window; both are then given the dictionary if there
/// is one. Nothing else is told, and what is left out stays at the
/// codec's default.
pub open spec fn settings_for(direction: Direction, config: ParametersView) -> Seq<SettingView> {
    match direction {
        Direction::Compress => seq![SettingView::Level(config.level)] + (if config.window_log
            != 0 {
            seq![SettingView::WindowLog(config.window_log)]
        } else {
            Seq::empty()
        }) + (if config.checksum {
            seq![SettingView::Checksum]
        } else {
            Seq::empty()
        }) + dictionary_setting(config),
        Direction::Decompress => (if config.window_log != 0 {
            seq![SettingView::WindowLimit(config.window_log)]
        } else {
            Seq::empty()
        }) + dictionary_setting(config),
    }
}

/// Lists what a context for the direction is to be told.
pub fn settings<'a>(direction: Direction, params: &Parameters<'a>) -> (list: Vec<Setting<'a>>)
    ensures
        setting_views(list@) == settings_for(direction, params@),
        forall|i: int| 0 <= i < list@.len() ==> setting_fits(direction, (#[trigger] list@[i])@),
{
    let mut list: Vec<Setting<'a>> = Vec::new();
    match direction {
        Direction::Compress => {
            list.push(Setting::Level(params.level()));
            if params.window_log() != 0 {
                list.push(Setting::WindowLog(params.window_log()));
            }
            if params.checksum() {
                list.push(Setting::Checksum);
            }
        },
        Direction::Decompress => {
            if params.window_log() != 0 {
                list.push(Setting::WindowLimit(params.window_log()));
            }
        },
    }
    match params.dictionary() {
        Some(dictionary) => {
            list.push(Setting::Dictionary(dictionary.as_bytes()));
        },
        None => {},
    }
    assert(setting_views(list@) =~= settings_for(direction, params@));
    list
}

/// One offer to the codec, and what came back: the record of one native
/// streaming call.
pub struct Offer {
    /// How many bytes the context had taken before the offer.
    pub at: nat,
    /// The input that was offered.
    pub input: Seq<u8>,
    /// The room for output that was given.
    pub room: usize,
    pub directive: Directive,
    /// How many bytes of the input the codec says it took.
    pub consumed: usize,
    /// The bytes that the codec emitted.
    pub produced: Seq<u8>,
    /// The codec's result: its estimate of what is left, or a native
    /// code.
    pub code: Result<usize, usize>,
}

impl Offer {
    /// Whether the codec succeeded and neither took nor gave.
    pub open spec fn idle(self) -> bool {
        self.code is Ok && self.consumed == 0 && self.produced.len() == 0
    }
}

/// The status of the step that made an offer which the codec answered
/// without a native code.
pub open spec fn offer_status(direction: Direction, offer: Offer) -> StepStatus {
    status_of(
        direction,
        offer.directive,
        offer.input.len() as int,
        offer.room as int,
        offer.consumed as int,
        offer.produced.len() as int,
        match offer.code {
            Ok(pending) => pending as int,
            Err(_) => 0,
        },
    )
}

/// Whether the last two offers both left the codec idle although each
/// gave it room for at least `least_room` bytes.
pub open spec fn stalled(offers: Seq<Offer>, least_room: usize) -> bool {
    &&& offers.len() >= 2
    &&& offers[offers.len() - 1].idle()
    &&& offers[offers.len() - 1].room >= least_room
    &&& offers[offers.len() - 2].idle()
    &&& offers[offers.len() - 2].room >= least_room
}

/// Whether `after` is `before` with one more offer: of `input`, with
/// `room`, under `directive`.
pub open spec fn offer_made(
    before: ContextView,
    after: ContextView,
    input: Seq<u8>,
    room: usize,
    directive: Directive,
) -> bool {
    &&& after.offers.len() == before.offers.len() + 1
    &&& after.offers.drop_last() == before.offers
    &&& after.offers.last().at == before.taken.len()
    &&& after.offers.last().input == input
    &&& after.offers.last().room == room
    &&& after.offers.last().directive == directive
}

/// Whether `e` is the fault of the context and is borne out by its last
/// offers: either the last offer came back with a native code, and `e` is
/// the class of that code at use; or the context has stalled, its last
/// two offers having left the codec idle though there was room, and `e`
/// is `InvalidState`. Either way `e` names the number of bytes taken.
pub open spec fn faulted(view: ContextView, e: Error) -> bool {
    &&& view.fault == Some(e)
    &&& view.offers.len() > 0
    &&& e.offset == clip(view.taken.len())
    &&& match view.offers.last().code {
        Err(code) => e.kind == kind_at_use(native_number(code)),
        Ok(_) => e.kind == ErrorKind::InvalidState && stalled(view.offers, 1),
    }
}

/// What a context is to its users: what it was told when it was set up,
/// and every byte it has taken and given since.
pub struct ContextView {
    pub direction: Direction,
    /// The parameters that the context was made from.
    pub config: ParametersView,
    /// What the codec was told at the set-up, in order.
    pub settings: Seq<SettingView>,
    pub taken: Seq<u8>,
    pub given: Seq<u8>,
    /// Whether the last step ended a frame.
    pub complete: bool,
    /// Every offer made to the codec, in order, with what came back.
    pub offers: Seq<Offer>,
    /// The failure that released the context, if one did: a failure that
    /// the codec reported, or that it stalled.
    pub fault: Option<Error>,
}

/// The view of a context that has just been made.
pub open spec fn fresh(direction: Direction, config: ParametersView) -> ContextView {
    ContextView {
        direction,
        config,
        settings: settings_for(direction, config),
        taken: Seq::empty(),
        given: Seq::empty(),
        complete: false,
        offers: Seq::empty(),
        fault: None,
    }
}

/// Between `before` and `after` the codec took exactly `input`, gave
/// exactly `output`, and ended a frame with its last step. Every way of
/// putting bytes through a context that is specified by this relation has
/// put the same question to the codec and passed on all of its answer.
pub open spec fn framed(
    before: ContextView,
    after: ContextView,
    input: Seq<u8>,
    output: Seq<u8>,
) -> bool {
    &&& after.direction == before.direction
    &&& after.config == before.config
    &&& after.settings == before.settings
    &&& after.taken == before.taken + input
    &&& after.given == before.given + output
    &&& after.complete
}

enum Handle {
    Compress(CCtx<'static>),
    Decompress(DCtx<'static>),
    Freed,
}

/// A codec context and the record of its traffic. The native context
/// belongs to this value alone and is released when `free` is called or
/// the value is dropped, whichever comes first, and never twice.
pub struct CodecContext {
    handle: Handle,
    direction: Direction,
    offset: u64,
    complete: bool,
    record: Ghost<ContextView>,
}

impl View for CodecContext {
    type V = ContextView;

    closed spec fn view(&self) -> ContextView {
        self.record@
    }
}

impl CodecContext {
    /// Whether the native context has not been released.
    pub closed spec fn live(&self) -> bool {
        !(self.handle is Freed)
    }

    /// What holds of every context that this module hands out.
    pub closed spec fn wf(&self) -> bool {
        &&& self.record@.direction == self.direction
        &&& self.offset == clip(self.record@.taken.len())
        &&& self.complete == self.record@.complete
        &&& self.handle is Compress ==> self.direction == Direction::Compress
        &&& self.handle is Decompress ==> self.direction == Direction::Decompress
        &&& self.record@.fault is Some ==> self.handle is Freed
    }

    /// A context that is in use has not failed.
    pub proof fn lemma_live_has_no_fault(&self)
        requires
            self.wf(),
            self.live(),
        ensures
            self@.fault is None,
    {
    }

    /// Makes a context for the direction and tells it, one by one and in
    /// order, the settings that `settings_for` lists for the parameters.
    ///
    /// Whether the codec accepts is for the codec to say. When it does not,
    /// the context is released and the failure is `ResourceExhausted` where
    /// memory was short and `InvalidParameter` otherwise.
    pub fn create(direction: Direction, params: &Parameters) -> (r: Result<CodecContext, Error>)
        ensures
            match r {
                Ok(c) => {
                    &&& c.wf()
                    &&& c.live()
                    &&& c@ == fresh(direction, params@)
                },
                Err(e) => {
                    &&& e.offset == 0
                    &&& e.kind == ErrorKind::InvalidParameter || e.kind
                        == ErrorKind::ResourceExhausted
                },
            },
    {
        match CodecContext::create_or_refuse(direction, params) {
            Ok(context) => Ok(context),
            Err(refusal) => Err(refusal.error()),
        }
    }

    /// Makes a context as `create` does, and where none can be made says
    /// so with a refusal, which nothing else can make.
    pub fn create_or_refuse(direction: Direction, params: &Parameters) -> (r: Result<
        CodecContext,
        Refusal,
    >)
        ensures
            match r {
                Ok(c) => {
                    &&& c.wf()
                    &&& c.live()
                    &&& c@ == fresh(direction, params@)
                },
                Err(refusal) => {
                    &&& refusal.direction() == direction
                    &&& refusal.config() == params@
                    &&& refusal.failure().offset == 0
                    &&& refusal.failure().kind == ErrorKind::InvalidParameter
                        || refusal.failure().kind == ErrorKind::ResourceExhausted
                },
            },
    {
        let list = settings(direction, params);
        let mut handle = match direction {
            Direction::Compress => match cctx_create() {
                Some(raw) => Handle::Compress(raw),
                None => {
                    return Err(
                        Refusal {
                            error: Error::new(ErrorKind::ResourceExhausted, 0),
                            direction: Ghost(direction),
                            config: Ghost(params@),
                        },
                    );
                },
            },
            Direction::Decompress => match dctx_create() {
                Some(raw) => Handle::Decompress(raw),
                None => {
                    return Err(
                        Refusal {
                            error: Error::new(ErrorKind::ResourceExhausted, 0),
                            direction: Ghost(direction),
                            config: Ghost(params@),
                        },
                    );
                },
            },
        };
        let ghost mut told: Seq<SettingView> = Seq::empty();
        let mut i: usize = 0;
        while i < list.len()
            invariant
                i <= list@.len(),
                forall|j: int|
                    0 <= j < list@.len() ==> setting_fits(direction, (#[trigger] list@[j])@),
                direction == Direction::Compress ==> handle is Compress,
                direction == Direction::Decompress ==> handle is Decompress,
                told == setting_views(list@).take(i as int),
            decreases list@.len() - i,
        {
            if let Err(code) = tell(&mut handle, list[i]) {
                return Err(
                    Refusal {
                        error: Error::from_setup(code),
                        direction: Ghost(direction),
                        config: Ghost(params@),
                    },
                );
            }
            proof {
                told = told.push(list@[i as int]@);
                assert(told =~= setting_views(list@).take(i + 1));
            }
            i = i + 1;
        }
        proof {
            assert(setting_views(list@).take(i as int) =~= setting_views(list@));
        }
        Ok(
            CodecContext {
                handle,
                direction,
                offset: 0,
                complete: false,
                record: Ghost(
                    ContextView {
                        direction,
                        config: params@,
                        settings: told,
                        taken: Seq::empty(),
                        given: Seq::empty(),
                        complete: false,
                        offers: Seq::empty(),
                        fault: None,
                    },
                ),
            },
        )
    }

    /// Runs the codec once: offers it `input`, gives it room for up to
    /// `room` bytes of output (never more than `ROOM_MAX`), and says what it
    /// took, what it gave and how it was left.
    ///
    /// A released context, and a directive that does not fit the direction,
    /// are refused with `InvalidState` and change nothing. When the codec
    /// itself reports a failure, the context is released, what the failing
    /// step emitted is dropped, the failure is the class of the native
    /// code at use (never `InvalidParameter`, which is for making a
    /// context), and the record keeps it as the context's fault.
    pub fn step(&mut self, input: &[u8], room: usize, directive: Directive) -> (r: Result<
        Step,
        Error,
    >)
        requires
            old(self).wf(),
        ensures
            final(self).wf(),
            match r {
                Ok(s) => {
                    &&& old(self).live()
                    &&& final(self).live()
                    &&& directive_fits(old(self)@.direction, directive)
                    &&& s.consumed <= input@.len()
                    &&& s.produced@.len() <= effective_room(room)
                    &&& s.status == status_of(
                        old(self)@.direction,
                        directive,
                        input@.len() as int,
                        effective_room(room) as int,
                        s.consumed as int,
                        s.produced@.len() as int,
                        s.pending as int,
                    )
                    &&& final(self)@ == (ContextView {
                        taken: old(self)@.taken + input@.take(s.consumed as int),
                        given: old(self)@.given + s.produced@,
                        complete: s.status is FrameComplete,
                        offers: final(self)@.offers,
                        ..old(self)@
                    })
                    &&& offer_made(
                        old(self)@,
                        final(self)@,
                        input@,
                        effective_room(room),
                        directive,
                    )
                    &&& final(self)@.offers.last().consumed == s.consumed
                    &&& final(self)@.offers.last().produced == s.produced@
                    &&& final(self)@.offers.last().code == Ok::<usize, usize>(s.pending)
                },
                Err(e) => {
                    &&& e.offset == clip(old(self)@.taken.len())
                    &&& e.kind != ErrorKind::InvalidParameter
                    &&& e.kind != ErrorKind::TypeError
                    &&& if old(self).live() && directive_fits(old(self)@.direction, directive) {
                        &&& !final(self).live()
                        &&& final(self)@ == (ContextView {
                            fault: Some(e),
                            offers: final(self)@.offers,
                            ..old(self)@
                        })
                        &&& offer_made(
                            old(self)@,
                            final(self)@,
                            input@,
                            effective_room(room),
                            directive,
                        )
                        &&& final(self)@.offers.last().code is Err
                        &&& faulted(final(self)@, e)
                    } else {
                        &&& e.kind == ErrorKind::InvalidState
                        &&& final(self).live() == old(self).live()
                        &&& final(self)@ == old(self)@
                    }
                },
            },
    {
        let room: usize = if room > ROOM_MAX {
            ROOM_MAX
        } else {
            room
        };
        if self.direction == Direction::Decompress && directive != Directive::Continue {
            return Err(Error::new(ErrorKind::InvalidState, self.offset));
        }
        let raw = match &mut self.handle {
            Handle::Compress(ctx) => cctx_stream(ctx, input, room, directive),
            Handle::Decompress(ctx) => dctx_stream(ctx, input, room),
            Handle::Freed => {
                return Err(Error::new(ErrorKind::InvalidState, self.offset));
            },
        };
        match raw.code {
            Err(code) => {
                let e = Error::from_use(code, self.offset);
                self.handle = Handle::Freed;
                let ghost offer = Offer {
                    at: self.record@.taken.len(),
                    input: input@,
                    room,
                    directive,
                    consumed: raw.consumed,
                    produced: raw.output@,
                    code: Err(code),
                };
                proof {
                    assert(self.record@.offers.push(offer).drop_last() =~= self.record@.offers);
                }
                self.record = Ghost(
                    ContextView {
                        fault: Some(e),
                        offers: self.record@.offers.push(offer),
                        ..self.record@
                    },
                );
                Err(e)
            },
            Ok(pending) => {
                let status = interpret(
                    self.direction,
                    directive,
                    input.len(),
                    room,
                    raw.consumed,
                    raw.output.len(),
                    pending,
                );
                proof {
                    lemma_advance_clip(self.record@.taken.len(), raw.consumed);
                    assert((self.record@.taken + input@.take(raw.consumed as int)).len()
                        == self.record@.taken.len() + raw.consumed);
                }
                self.offset = advance(self.offset, raw.consumed);
                self.complete = status == StepStatus::FrameComplete;
                let ghost offer = Offer {
                    at: self.record@.taken.len(),
                    input: input@,
                    room,
                    directive,
                    consumed: raw.consumed,
                    produced: raw.output@,
                    code: Ok(pending),
                };
                proof {
                    assert(self.record@.offers.push(offer).drop_last() =~= self.record@.offers);
                }
                self.record = Ghost(
                    ContextView {
                        taken: self.record@.taken + input@.take(raw.consumed as int),
                        given: self.record@.given + raw.output@,
                        complete: status == StepStatus::FrameComplete,
                        offers: self.record@.offers.push(offer),
                        ..self.record@
                    },
                );
                Ok(Step { consumed: raw.consumed, produced: raw.output, pending, status })
            },
        }
    }

    /// Releases the native context. Releasing a released context does
    /// nothing.
    pub fn free(&mut self)
        requires
            old(self).wf(),
        ensures
            final(self).wf(),
            !final(self).live(),
            final(self)@ == old(self)@,
    {
        self.handle = Handle::Freed;
    }

    /// Releases a context that has stalled: its last two offers left the
    /// codec idle though each gave it room. Gives the failure to report,
    /// `InvalidState` at the number of bytes taken, and keeps it in the
    /// record as the context's fault.
    pub fn give_up(&mut self) -> (e: Error)
        requires
            old(self).wf(),
            old(self).live(),
            stalled(old(self)@.offers, 1),
        ensures
            final(self).wf(),
            !final(self).live(),
            final(self)@ == (ContextView { fault: Some(e), ..old(self)@ }),
            faulted(final(self)@, e),
            e.kind == ErrorKind::InvalidState,
    {
        let e = Error::new(ErrorKind::InvalidState, self.offset);
        self.handle = Handle::Freed;
        self.record = Ghost(ContextView { fault: Some(e), ..self.record@ });
        e
    }

    /// The context's record as it is now.
    pub fn snapshot(&self) -> (s: Snapshot)
        ensures
            s@ == self@,
            s.live() == self.live(),
    {
        Snapshot { record: Ghost(self.record@), live: Ghost(!(self.handle is Freed)) }
    }

    /// Whether the native context has not been released.
    pub fn is_live(&self) -> (live: bool)
        ensures
            live == self.live(),
    {
        match &self.handle {
            Handle::Freed => false,
            _ => true,
        }
    }

    /// Which way the context works.
    pub fn direction(&self) -> (direction: Direction)
        requires
            self.wf(),
        ensures
            direction == self@.direction,
    {
        self.direction
    }

    /// Whether the last step ended a frame.
    pub fn at_frame_end(&self) -> (complete: bool)
        requires
            self.wf(),
        ensures
            complete == self@.complete,
    {
        self.complete
    }

    /// How many bytes the context has taken, as an offset.
    pub fn offset(&self) -> (offset: u64)
        requires
            self.wf(),
        ensures
            offset == clip(self@.taken.len()),
    {
        self.offset
    }
}

/// Tells a native context one setting. The result is the codec's.
fn tell(handle: &mut Handle, setting: Setting) -> (r: Result<usize, usize>)
    requires
        *old(handle) is Compress ==> setting_fits(Direction::Compress, setting@),
        *old(handle) is Decompress ==> setting_fits(Direction::Decompress, setting@),
        !(*old(handle) is Freed),
    ensures
        *old(handle) is Compress ==> *final(handle) is Compress,
        *old(handle) is Decompress ==> *final(handle) is Decompress,
{
    match handle {
        Handle::Compress(raw) => match setting {
            Setting::Level(level) => cctx_set(raw, Knob::Level(level)),
            Setting::WindowLog(log) => cctx_set(raw, Knob::WindowLog(log)),
            Setting::Checksum => cctx_set(raw, Knob::Checksum(true)),
            Setting::Dictionary(content) => cctx_load_dictionary(raw, content),
            Setting::WindowLimit(_) => unreached(),
        },
        Handle::Decompress(raw) => match setting {
            Setting::WindowLimit(log) => dctx_set_window_limit(raw, log),
            Setting::Dictionary(content) => dctx_load_dictionary(raw, content),
            _ => unreached(),
        },
        Handle::Freed => unreached(),
    }
}

/// That no context could be made for a direction and parameters, and
/// why. Only `CodecContext::create_or_refuse` makes one, when it fails.
pub struct Refusal {
    error: Error,
    direction: Ghost<Direction>,
    config: Ghost<ParametersView>,
}

impl Refusal {
    /// The failure.
    pub closed spec fn failure(&self) -> Error {
        self.error
    }

    /// The direction that the context was to have.
    pub closed spec fn direction(&self) -> Direction {
        self.direction@
    }

    /// The parameters that the context was to be made from.
    pub closed spec fn config(&self) -> ParametersView {
        self.config@
    }

    /// The failure.
    pub fn error(&self) -> (e: Error)
        ensures
            e == self.failure(),
    {
        self.error
    }
}

/// A context's record at one moment. Only a context makes one, of itself
/// (`CodecContext::snapshot`), so whoever holds a snapshot holds what some
/// context's record really was.
pub struct Snapshot {
    record: Ghost<ContextView>,
    live: Ghost<bool>,
}

impl View for Snapshot {
    type V = ContextView;

    closed spec fn view(&self) -> ContextView {
        self.record@
    }
}

impl Snapshot {
    /// Whether the context was in use at that moment.
    pub closed spec fn live(&self) -> bool {
        self.live@
    }
}

/// A parameter of a compression context.
enum Knob {
    Level(i32),
    WindowLog(u32),
    Checksum(bool),
}

/// What a native streaming call left behind.
struct RawStep {
    consumed: usize,
    output: Vec<u8>,
    code: Result<usize, usize>,
}

#[verifier::external_type_specification]
#[verifier::external_body]
pub struct ExCCtx<'a>(CCtx<'a>);

#[verifier::external_type_specification]
#[verifier::external_body]
pub struct ExDCtx<'a>(DCtx<'a>);

/// `CCtx::try_create`. Gives a new compression context, or `None` when the
/// codec could not allocate one; nothing is assumed about which.
#[verifier::external_body]
fn cctx_create() -> (r: Option<CCtx<'static>>) {
    CCtx::try_create()
}

/// `DCtx::try_create`. Gives a new decompression context, or `None` when
/// the codec could not allocate one; nothing is assumed about which.
#[verifier::external_body]
fn dctx_create() -> (r: Option<DCtx<'static>>) {
    DCtx::try_create()
}

/// `CCtx::set_parameter`. The result is the codec's: `Err` carries its
/// native code. Nothing is assumed about it.
#[verifier::external_body]
fn cctx_set(ctx: &mut CCtx<'static>, knob: Knob) -> (r: Result<usize, usize>) {
    ctx.set_parameter(
        match knob {
            Knob::Level(level) => CParameter::CompressionLevel(level),
            Knob::WindowLog(log) => CParameter::WindowLog(log),
            Knob::Checksum(on) => CParameter::ChecksumFlag(on),
        },
    )
}

/// `DCtx::set_parameter` with `DParameter::WindowLogMax`. The result is
/// the codec's; nothing is assumed about it.
#[verifier::external_body]
fn dctx_set_window_limit(ctx: &mut DCtx<'static>, log: u32) -> (r: Result<usize, usize>) {
    ctx.set_parameter(DParameter::WindowLogMax(log))
}

/// `CCtx::load_dictionary`. The codec copies the content. The result is
/// the codec's; nothing is assumed about it.
#[verifier::external_body]
fn cctx_load_dictionary(ctx: &mut CCtx<'static>, content: &[u8]) -> (r: Result<usize, usize>) {
    ctx.load_dictionary(content)
}

/// `DCtx::load_dictionary`. The codec copies the content. The result is
/// the codec's; nothing is assumed about it.
#[verifier::external_body]
fn dctx_load_dictionary(ctx: &mut DCtx<'static>, content: &[u8]) -> (r: Result<usize, usize>) {
    ctx.load_dictionary(content)
}

/// `CCtx::compress_stream2`, on all of `input` and a fresh output buffer
/// of `room` bytes. Assumed: the codec leaves both positions within their
/// buffers, as it documents, so `consumed` is at most the input's length
/// and `output`, which is the buffer up to its position, at most `room`
/// bytes long. (The binding checks both positions itself when it reads
/// them back, in `InBuffer::set_pos` and `OutBuffer::pos`.)
#[verifier::external_body]
fn cctx_stream(ctx: &mut CCtx<'static>, input: &[u8], room: usize, directive: Directive) -> (r:
    RawStep)
    requires
        room <= ROOM_MAX,
    ensures
        r.consumed <= input@.len(),
        r.output@.len() <= room,
{
    let mut output = vec![0u8; room];
    let mut dst = OutBuffer::around(&mut output[..]);
    let mut src = InBuffer::around(input);
    let op = match directive {
        Directive::Continue => ZSTD_EndDirective::ZSTD_e_continue,
        Directive::Flush => ZSTD_EndDirective::ZSTD_e_flush,
        Directive::End => ZSTD_EndDirective::ZSTD_e_end,
    };
    let code = ctx.compress_stream2(&mut dst, &mut src, op);
    let produced = dst.pos();
    output.truncate(produced);
    RawStep { consumed: src.pos(), output, code }
}

/// `DCtx::decompress_stream`, on all of `input` and a fresh output buffer
/// of `room` bytes. Assumed: the codec leaves both positions within their
/// buffers, as it documents, so `consumed` is at most the input's length
/// and `output`, which is the buffer up to its position, at most `room`
/// bytes long. (The binding checks both positions itself when it reads
/// them back, in `InBuffer::set_pos` and `OutBuffer::pos`.)
#[verifier::external_body]
fn dctx_stream(ctx: &mut DCtx<'static>, input: &[u8], room: usize) -> (r: RawStep)
    requires
        room <= ROOM_MAX,
    ensures
        r.consumed <= input@.len(),
        r.output@.len() <= room,
{
    let mut output = vec![0u8; room];
    let mut dst = OutBuffer::around(&mut output[..]);
    let mut src = InBuffer::around(input);
    let code = ctx.decompress_stream(&mut dst, &mut src);
    let produced = dst.pos();
    output.truncate(produced);
    RawStep { consumed: src.pos(), output, code }
}

} // verus!
