//! The module instance: what one interpreter gets when it loads the
//! module, and the order in which it gets it.
//!
//! Registering is the host's work. What is decided here is what to
//! register and when to stop: the host performs one action, reports how it
//! went, and is told the next. Nothing in an instance is shared with
//! another: an instance is a plain value, and this library has no global
//! state for two of them to meet in.

use vstd::prelude::*;
use crate::params::default_view;
use crate::params::Parameters;
use crate::params::ParametersView;

verus! {

/// The version of the module.
pub const VERSION: &'static str = "0.25.0";

/// The name under which the host knows the module.
pub const MODULE_NAME: &'static str = "backend_rust";

/// The module's description.
pub const MODULE_DOC: &'static str = "Rust backend for zstandard bindings with subinterpreter support";

/// The name of the module attribute that holds the set of capabilities.
pub const FEATURES_ATTRIBUTE: &'static str = "backend_features";

/// An optional feature that callers can probe for.
#[derive(Clone, Copy, Debug, PartialEq, Eq, Structural)]
pub enum Capability {
    /// Buffer views are supported.
    BufferTypes,
    /// Batches can be compressed by several workers.
    MultiCompressToBuffer,
    /// Batches can be decompressed by several workers.
    MultiDecompressToBuffer,
}

/// The name by which a capability is advertised.
pub open spec fn capability_name(capability: Capability) -> Seq<char> {
    match capability {
        Capability::BufferTypes => "buffer_types"@,
        Capability::MultiCompressToBuffer => "multi_compress_to_buffer"@,
        Capability::MultiDecompressToBuffer => "multi_decompress_to_buffer"@,
    }
}

impl Capability {
    /// The name by which the capability is advertised.
    pub fn name(&self) -> (name: &'static str)
        ensures
            name@ == capability_name(*self),
    {
        match self {
            Capability::BufferTypes => "buffer_types",
            Capability::MultiCompressToBuffer => "multi_compress_to_buffer",
            Capability::MultiDecompressToBuffer => "multi_decompress_to_buffer",
        }
    }
}

/// The capabilities of this build.
pub fn capabilities() -> (all: Vec<Capability>)
    ensures
        all@ == seq![
            Capability::BufferTypes,
            Capability::MultiCompressToBuffer,
            Capability::MultiDecompressToBuffer,
        ],
{
    let mut all: Vec<Capability> = Vec::new();
    all.push(Capability::BufferTypes);
    all.push(Capability::MultiCompressToBuffer);
    all.push(Capability::MultiDecompressToBuffer);
    assert(all@ =~= seq![
        Capability::BufferTypes,
        Capability::MultiCompressToBuffer,
        Capability::MultiDecompressToBuffer,
    ]);
    all
}

/// One thing that an instance registers with its interpreter.
#[derive(Clone, Copy, Debug, PartialEq, Eq, Structural)]
pub enum Component {
    /// The set of capabilities.
    Features,
    Buffers,
    CompressionDict,
    CompressionParameters,
    Compressor,
    Constants,
    Decompressor,
    Exceptions,
    FrameParameters,
}

/// How many components there are.
pub const COMPONENTS: usize = 9;

/// The components in the order in which they are registered.
pub open spec fn plan() -> Seq<Component> {
    seq![
        Component::Features,
        Component::Buffers,
        Component::CompressionDict,
        Component::CompressionParameters,
        Component::Compressor,
        Component::Constants,
        Component::Decompressor,
        Component::Exceptions,
        Component::FrameParameters,
    ]
}

/// The component at a place in the plan, if the plan is that long.
pub fn component_at(place: usize) -> (component: Option<Component>)
    ensures
        component == if place < COMPONENTS {
            Some(plan()[place as int])
        } else {
            None
        },
{
    if place == 0 {
        Some(Component::Features)
    } else if place == 1 {
        Some(Component::Buffers)
    } else if place == 2 {
        Some(Component::CompressionDict)
    } else if place == 3 {
        Some(Component::CompressionParameters)
    } else if place == 4 {
        Some(Component::Compressor)
    } else if place == 5 {
        Some(Component::Constants)
    } else if place == 6 {
        Some(Component::Decompressor)
    } else if place == 7 {
        Some(Component::Exceptions)
    } else if place == 8 {
        Some(Component::FrameParameters)
    } else {
        None
    }
}

/// How far the initialization of an instance has come.
#[derive(Clone, Copy, Debug, PartialEq, Eq, Structural)]
pub enum InitState {
    /// The first `n` components are registered; the next is to follow.
    Pending(usize),
    /// Every component is registered.
    Ready,
    /// The component at this place was refused, and nothing after it was
    /// tried.
    Failed(usize),
}

/// What the host is to do next.
#[derive(Clone, Copy, Debug, PartialEq, Eq, Structural)]
pub enum InitAction {
    /// Register this component and report how it went.
    Register(Component),
    /// Report success to the interpreter.
    Complete,
    /// Pass the failure on to the interpreter.
    Abort,
}

/// The action that a state calls for.
pub open spec fn action_in(state: InitState) -> InitAction {
    match state {
        InitState::Pending(n) => if n < COMPONENTS {
            InitAction::Register(plan()[n as int])
        } else {
            InitAction::Complete
        },
        InitState::Ready => InitAction::Complete,
        InitState::Failed(_) => InitAction::Abort,
    }
}

/// The state after the host has reported on the action of `state`: after
/// a success the next component is due, or all are done; after a refusal
/// the initialization has failed where it stood. Once ready or failed,
/// a state does not change.
pub open spec fn state_after(state: InitState, registered: bool) -> InitState {
    match state {
        InitState::Pending(n) => if n >= COMPONENTS {
            InitState::Ready
        } else if !registered {
            InitState::Failed(n)
        } else if n + 1 < COMPONENTS {
            InitState::Pending((n + 1) as usize)
        } else {
            InitState::Ready
        },
        InitState::Ready => InitState::Ready,
        InitState::Failed(n) => InitState::Failed(n),
    }
}

/// The state after a run of reports.
pub open spec fn state_after_all(state: InitState, reports: Seq<bool>) -> InitState
    decreases reports.len(),
{
    if reports.len() == 0 {
        state
    } else {
        state_after(state_after_all(state, reports.drop_last()), reports.last())
    }
}

/// The action that a state calls for.
pub fn next_action(state: InitState) -> (action: InitAction)
    ensures
        action == action_in(state),
{
    match state {
        InitState::Pending(n) => match component_at(n) {
            Some(component) => InitAction::Register(component),
            None => InitAction::Complete,
        },
        InitState::Ready => InitAction::Complete,
        InitState::Failed(_) => InitAction::Abort,
    }
}

/// Takes the host's report on the action of `state` and gives the next
/// state.
pub fn advance(state: InitState, registered: bool) -> (next: InitState)
    ensures
        next == state_after(state, registered),
{
    match state {
        InitState::Pending(n) => if n >= COMPONENTS {
            InitState::Ready
        } else if !registered {
            InitState::Failed(n)
        } else if n + 1 < COMPONENTS {
            InitState::Pending(n + 1)
        } else {
            InitState::Ready
        },
        InitState::Ready => InitState::Ready,
        InitState::Failed(n) => InitState::Failed(n),
    }
}

/// An initialization in which nothing is refused registers the components
/// of the plan, each once and in the plan's order, and is ready after the
/// last.
pub proof fn lemma_init_follows_plan(reports: Seq<bool>)
    requires
        reports.len() <= COMPONENTS,
        forall|i: int| 0 <= i < reports.len() ==> reports[i],
    ensures
        state_after_all(InitState::Pending(0), reports) == if reports.len() < COMPONENTS {
            InitState::Pending(reports.len() as usize)
        } else {
            InitState::Ready
        },
        reports.len() < COMPONENTS ==> action_in(
            state_after_all(InitState::Pending(0), reports),
        ) == InitAction::Register(plan()[reports.len() as int]),
    decreases reports.len(),
{
    if reports.len() > 0 {
        lemma_init_follows_plan(reports.drop_last());
    }
}

/// The first refusal ends an initialization: the state is failed at the
/// place of the refused component, stays so whatever is reported later,
/// and calls for nothing but passing the failure on.
pub proof fn lemma_init_stops_at_refusal(reports: Seq<bool>, place: int)
    requires
        0 <= place < reports.len(),
        place < COMPONENTS,
        !reports[place],
        forall|i: int| 0 <= i < place ==> reports[i],
    ensures
        state_after_all(InitState::Pending(0), reports) == InitState::Failed(place as usize),
        action_in(state_after_all(InitState::Pending(0), reports)) == InitAction::Abort,
    decreases reports.len(),
{
    let before = reports.drop_last();
    if place == reports.len() - 1 {
        lemma_init_follows_plan(before);
    } else {
        lemma_init_stops_at_refusal(before, place);
    }
}

/// How the host's call to set up the module went.
#[derive(Clone, Copy, Debug, PartialEq, Eq, Structural)]
pub enum ExecOutcome {
    /// The host passed no module.
    NullModule,
    /// The host passed something that is not a module.
    NotAModule,
    /// A component was refused.
    InitFailed,
    /// Every component is registered.
    Initialized,
}

/// What the host is told at the end of the call.
#[derive(Clone, Copy, Debug, PartialEq, Eq, Structural)]
pub struct ExecReply {
    /// Zero for success, minus one for failure.
    pub status: i32,
    /// Whether a pending failure is to be handed to the interpreter.
    pub restore_error: bool,
}

/// The reply for each outcome of the call.
pub open spec fn reply_for(outcome: ExecOutcome) -> ExecReply {
    match outcome {
        ExecOutcome::Initialized => ExecReply { status: 0i32, restore_error: false },
        ExecOutcome::InitFailed => ExecReply { status: -1i32, restore_error: true },
        ExecOutcome::NullModule => ExecReply { status: -1i32, restore_error: false },
        ExecOutcome::NotAModule => ExecReply { status: -1i32, restore_error: false },
    }
}

/// The reply for the outcome of the call.
pub fn exec_reply(outcome: ExecOutcome) -> (reply: ExecReply)
    ensures
        reply == reply_for(outcome),
{
    match outcome {
        ExecOutcome::Initialized => ExecReply { status: 0, restore_error: false },
        ExecOutcome::InitFailed => ExecReply { status: -1, restore_error: true },
        ExecOutcome::NullModule => ExecReply { status: -1, restore_error: false },
        ExecOutcome::NotAModule => ExecReply { status: -1, restore_error: false },
    }
}

/// An entry of the table that tells the host how to set the module up.
#[derive(Clone, Copy, Debug, PartialEq, Eq, Structural)]
pub enum Slot {
    /// The function that sets up an instance.
    Exec,
    /// Each interpreter may run the module under a lock of its own.
    PerInterpreterGil,
    /// The module does not rely on the global lock.
    GilNotUsed,
    /// The end of the table.
    End,
}

/// The table for a host of the given minor version. It always has four
/// entries: the function; the declaration on interpreters from version 12
/// on; the declaration on the lock from version 13 on; and the end. Where
/// a declaration is not known to the host, the table ends early.
pub open spec fn slots_for(minor: u32) -> Seq<Slot> {
    seq![
        Slot::Exec,
        if minor >= 12 {
            Slot::PerInterpreterGil
        } else {
            Slot::End
        },
        if minor >= 13 {
            Slot::GilNotUsed
        } else {
            Slot::End
        },
        Slot::End,
    ]
}

/// The table for a host of the given minor version.
pub fn module_slots(minor: u32) -> (slots: Vec<Slot>)
    ensures
        slots@ == slots_for(minor),
{
    let mut slots: Vec<Slot> = Vec::new();
    slots.push(Slot::Exec);
    slots.push(
        if minor >= 12 {
            Slot::PerInterpreterGil
        } else {
            Slot::End
        },
    );
    slots.push(
        if minor >= 13 {
            Slot::GilNotUsed
        } else {
            Slot::End
        },
    );
    slots.push(Slot::End);
    assert(slots@ =~= slots_for(minor));
    slots
}

/// Every table starts with the function, ends with the end marker, and
/// holds nothing but end markers behind the first of them, so a host that
/// stops at the first end marker misses nothing.
pub proof fn lemma_slots_are_terminated(minor: u32, i: int, j: int)
    requires
        0 <= i <= j < 4,
        slots_for(minor)[i] == Slot::End,
    ensures
        slots_for(minor).len() == 4,
        slots_for(minor)[0] == Slot::Exec,
        slots_for(minor)[3] == Slot::End,
        slots_for(minor)[j] == Slot::End,
{
}

/// What an instance is to its users.
pub struct InstanceView {
    pub state: InitState,
    pub defaults: ParametersView,
}

/// The state of one instance of the module: how far its initialization
/// has come, and the parameters it uses where a caller gives none.
#[derive(Clone, Copy, Debug)]
pub struct ModuleInstance {
    state: InitState,
    defaults: Parameters<'static>,
}

impl View for ModuleInstance {
    type V = InstanceView;

    closed spec fn view(&self) -> InstanceView {
        InstanceView { state: self.state, defaults: self.defaults@ }
    }
}

impl ModuleInstance {
    /// A new instance: nothing registered, and the library's default
    /// parameters.
    pub fn new() -> (instance: ModuleInstance)
        ensures
            instance@.state == InitState::Pending(0),
            instance@.defaults == default_view(),
    {
        ModuleInstance { state: InitState::Pending(0), defaults: Parameters::defaults() }
    }

    /// How far the initialization has come.
    pub fn state(&self) -> (state: InitState)
        ensures
            state == self@.state,
    {
        self.state
    }

    /// What the host is to do next.
    pub fn next_action(&self) -> (action: InitAction)
        ensures
            action == action_in(self@.state),
    {
        next_action(self.state)
    }

    /// Takes the host's report on the last action.
    pub fn record(&mut self, registered: bool)
        ensures
            final(self)@ == (InstanceView {
                state: state_after(old(self)@.state, registered),
                ..old(self)@
            }),
    {
        self.state = advance(self.state, registered);
    }

    /// The parameters used where a caller gives none.
    pub fn defaults(&self) -> (defaults: Parameters<'static>)
        ensures
            defaults@ == self@.defaults,
    {
        self.defaults
    }

    /// Replaces the parameters used where a caller gives none. Only this
    /// instance is changed.
    pub fn set_defaults(&mut self, defaults: Parameters<'static>)
        ensures
            final(self)@ == (InstanceView { defaults: defaults@, ..old(self)@ }),
    {
        self.defaults = defaults;
    }
}

} // verus!
