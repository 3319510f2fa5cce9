//! The ordered bring-up of a session.
//!
//! A session is brought up one step at a time: the interrupt lines, then the
//! modem, then, for a telemetry image, the credentials and the transport. The
//! firmware performs each step and reports how it went; the lifecycle answers
//! with the next step, with the loop to enter once the last step is done, or
//! with the failure to halt on. A failed step is final: nothing is asked for
//! after it.

use crate::bridge::{Install, InterruptLine, Priority};
use crate::error::LinkError;
use vstd::prelude::*;

verus! {

/// Which bearer the modem prefers when more than one is enabled.
#[derive(Clone, Copy, Debug, PartialEq, Eq, Structural)]
pub enum BearerPreference {
    /// The modem chooses from its history and the SIM.
    NoPreference,
    Lte,
    NbIot,
    /// The network's priorities first, LTE among equals.
    NetworkThenLte,
    /// The network's priorities first, NB-IoT among equals.
    NetworkThenNbIot,
}

/// The radios the modem is asked to enable.
#[derive(Clone, Copy, Debug, PartialEq, Eq, Structural)]
pub struct SystemMode {
    pub lte: bool,
    pub power_saving: bool,
    pub nbiot: bool,
    pub gnss: bool,
    pub preference: BearerPreference,
}

/// The fixed address of the remote end.
#[derive(Clone, Copy, Debug, PartialEq, Eq, Structural)]
pub struct Endpoint {
    pub a: u8,
    pub b: u8,
    pub c: u8,
    pub d: u8,
    pub port: u16,
}

/// How far a secure transport checks its peer.
#[derive(Clone, Copy, Debug, PartialEq, Eq, Structural)]
pub enum PeerVerification {
    Disabled,
    Optional,
    Required,
}

/// The kind of transport to open.
#[derive(Clone, Copy, Debug, PartialEq, Eq, Structural)]
pub enum Protocol {
    PlainStream,
    SecureDatagram(PeerVerification),
}

/// Where telemetry goes, and over what.
#[derive(Clone, Copy, Debug, PartialEq, Eq, Structural)]
pub struct Remote {
    pub endpoint: Endpoint,
    pub protocol: Protocol,
}

/// What the image does once the session is up.
#[derive(Clone, Copy, Debug, PartialEq, Eq, Structural)]
pub enum Mode {
    /// Relay command frames between the serial line and the modem.
    PassThrough,
    /// Sample and transmit to the remote end on a fixed schedule.
    Telemetry(Remote),
}

/// Everything that selects one bring-up sequence.
#[derive(Clone, Copy, Debug, PartialEq, Eq, Structural)]
pub struct LifecycleConfig {
    pub system_mode: SystemMode,
    pub mode: Mode,
}

/// The four stages of a bring-up, in their order.
#[derive(Clone, Copy, Debug, PartialEq, Eq, Structural)]
pub enum Stage {
    Bridge,
    ModemInit,
    Provisioning,
    TransportConnect,
}

/// One operation of the bring-up, performed by the firmware.
#[derive(Clone, Copy, Debug, PartialEq, Eq, Structural)]
pub enum Step {
    /// Bind the line's handler, set its priority and enable it.
    Install(Install),
    /// Initialise the modem with these radios and wait until it is ready.
    InitModem(SystemMode),
    /// Store the credential set in the modem's secure storage.
    InstallCredentials,
    /// Open the transport to the remote end.
    Connect(Remote),
}

/// The loop that runs once the session is up.
#[derive(Clone, Copy, Debug, PartialEq, Eq, Structural)]
pub enum Downstream {
    CommandRelay,
    SenseTransmit,
}

/// What the firmware is to do next.
#[derive(Clone, Copy, Debug, PartialEq, Eq, Structural)]
pub enum LifecycleAction {
    /// Perform the step and report its outcome.
    Perform(Step),
    /// The session is up: run this loop.
    Enter(Downstream),
    /// A step failed: log the error and stop.
    Halt(LinkError),
}

/// How a step went.
#[derive(Clone, Copy, Debug, PartialEq, Eq, Structural)]
pub enum LifecycleEvent {
    Installed(InterruptLine),
    ModemReady,
    ModemFailed,
    CredentialsInstalled,
    CredentialsRefused,
    Connected,
    ConnectFailed,
}

impl Step {
    /// The stage the step belongs to.
    pub open spec fn stage_of(self) -> Stage {
        match self {
            Step::Install(_) => Stage::Bridge,
            Step::InitModem(_) => Stage::ModemInit,
            Step::InstallCredentials => Stage::Provisioning,
            Step::Connect(_) => Stage::TransportConnect,
        }
    }

    /// The event that reports the step done.
    pub open spec fn completion_of(self) -> LifecycleEvent {
        match self {
            Step::Install(install) => LifecycleEvent::Installed(install.line),
            Step::InitModem(_) => LifecycleEvent::ModemReady,
            Step::InstallCredentials => LifecycleEvent::CredentialsInstalled,
            Step::Connect(_) => LifecycleEvent::Connected,
        }
    }

    /// The event that reports the step failed, with the error it ends the run
    /// on. Installing a line has no failure to report.
    pub open spec fn failure_of(self) -> Option<(LifecycleEvent, LinkError)> {
        match self {
            Step::Install(_) => None,
            Step::InitModem(_) => Some((LifecycleEvent::ModemFailed, LinkError::ModemInit)),
            Step::InstallCredentials => Some(
                (LifecycleEvent::CredentialsRefused, LinkError::Provisioning),
            ),
            Step::Connect(_) => Some((LifecycleEvent::ConnectFailed, LinkError::Transport)),
        }
    }

    /// The stage the step belongs to.
    pub fn stage(&self) -> (stage: Stage)
        ensures
            stage == self.stage_of(),
    {
        match self {
            Step::Install(_) => Stage::Bridge,
            Step::InitModem(_) => Stage::ModemInit,
            Step::InstallCredentials => Stage::Provisioning,
            Step::Connect(_) => Stage::TransportConnect,
        }
    }

    /// The event that reports the step done.
    pub fn completion(&self) -> (event: LifecycleEvent)
        ensures
            event == self.completion_of(),
    {
        match self {
            Step::Install(install) => LifecycleEvent::Installed(install.line),
            Step::InitModem(_) => LifecycleEvent::ModemReady,
            Step::InstallCredentials => LifecycleEvent::CredentialsInstalled,
            Step::Connect(_) => LifecycleEvent::Connected,
        }
    }

    /// The event that reports the step failed, with the error it ends the run
    /// on, if the step can fail.
    pub fn failure(&self) -> (failure: Option<(LifecycleEvent, LinkError)>)
        ensures
            failure == self.failure_of(),
    {
        match self {
            Step::Install(_) => None,
            Step::InitModem(_) => Some((LifecycleEvent::ModemFailed, LinkError::ModemInit)),
            Step::InstallCredentials => Some(
                (LifecycleEvent::CredentialsRefused, LinkError::Provisioning),
            ),
            Step::Connect(_) => Some((LifecycleEvent::ConnectFailed, LinkError::Transport)),
        }
    }
}

impl Mode {
    /// The loop the mode ends in.
    pub open spec fn downstream_of(self) -> Downstream {
        match self {
            Mode::PassThrough => Downstream::CommandRelay,
            Mode::Telemetry(_) => Downstream::SenseTransmit,
        }
    }

    /// The loop the mode ends in.
    pub fn downstream(&self) -> (downstream: Downstream)
        ensures
            downstream == self.downstream_of(),
    {
        match self {
            Mode::PassThrough => Downstream::CommandRelay,
            Mode::Telemetry(_) => Downstream::SenseTransmit,
        }
    }
}

/// The steps of a bring-up, in the order they are performed: the two lines,
/// the modem, and for telemetry the credentials and then the transport.
pub open spec fn plan(config: LifecycleConfig) -> Seq<Step> {
    match config.mode {
        Mode::PassThrough => seq![
            Step::Install(
                Install { line: InterruptLine::ApplicationEvent, priority: Priority::P4 },
            ),
            Step::Install(Install { line: InterruptLine::Ipc, priority: Priority::P0 }),
            Step::InitModem(config.system_mode),
        ],
        Mode::Telemetry(remote) => seq![
            Step::Install(
                Install { line: InterruptLine::ApplicationEvent, priority: Priority::P4 },
            ),
            Step::Install(Install { line: InterruptLine::Ipc, priority: Priority::P0 }),
            Step::InitModem(config.system_mode),
            Step::InstallCredentials,
            Step::Connect(remote),
        ],
    }
}

/// A lifecycle, as mathematics: the sequence it follows, how many of its
/// steps are done, and the failure that ended it, if one did.
pub struct LifecycleModel {
    pub config: LifecycleConfig,
    pub completed: nat,
    pub fault: Option<LinkError>,
}

impl LifecycleModel {
    /// Nothing done yet.
    pub open spec fn start(config: LifecycleConfig) -> LifecycleModel {
        LifecycleModel { config, completed: 0, fault: None }
    }

    /// No more steps are done than the plan has.
    pub open spec fn wf(self) -> bool {
        self.completed <= plan(self.config).len()
    }

    /// Every step is done and none failed.
    pub open spec fn is_running(self) -> bool {
        self.fault is None && self.completed >= plan(self.config).len()
    }

    /// A step failed.
    pub open spec fn is_halted(self) -> bool {
        self.fault is Some
    }

    /// What the firmware is to do in this state: halt on the failure, perform
    /// the first step not yet done, or enter the loop.
    pub open spec fn pending(self) -> LifecycleAction {
        match self.fault {
            Some(error) => LifecycleAction::Halt(error),
            None => if self.completed < plan(self.config).len() {
                LifecycleAction::Perform(plan(self.config)[self.completed as int])
            } else {
                LifecycleAction::Enter(self.config.mode.downstream_of())
            },
        }
    }

    /// The event reports that the step now pending is done.
    pub open spec fn completes(self, event: LifecycleEvent) -> bool {
        &&& self.fault is None
        &&& self.completed < plan(self.config).len()
        &&& event == plan(self.config)[self.completed as int].completion_of()
    }

    /// The event reports that the step now pending failed.
    pub open spec fn fails(self, event: LifecycleEvent) -> bool {
        &&& self.fault is None
        &&& self.completed < plan(self.config).len()
        &&& plan(self.config)[self.completed as int].failure_of() matches Some(failure)
        &&& event == failure.0
    }

    /// The event is an outcome of the step now pending. Any other event is
    /// turned away.
    pub open spec fn accepts(self, event: LifecycleEvent) -> bool {
        self.completes(event) || self.fails(event)
    }

    /// The state after the event: one more step done, the failure on record,
    /// or, for an event that is turned away, no change.
    pub open spec fn next(self, event: LifecycleEvent) -> LifecycleModel {
        if self.completes(event) {
            LifecycleModel { completed: self.completed + 1, ..self }
        } else if self.fails(event) {
            match plan(self.config)[self.completed as int].failure_of() {
                Some(failure) => LifecycleModel { fault: Some(failure.1), ..self },
                None => self,
            }
        } else {
            self
        }
    }

    /// The state after a run of events, taken first to last.
    pub open spec fn run(self, events: Seq<LifecycleEvent>) -> LifecycleModel
        decreases events.len(),
    {
        if events.len() == 0 {
            self
        } else {
            self.next(events.first()).run(events.drop_first())
        }
    }

    /// The actions given in answer to a run of events, one for each event
    /// that was not turned away.
    pub open spec fn trace(self, events: Seq<LifecycleEvent>) -> Seq<LifecycleAction>
        decreases events.len(),
    {
        if events.len() == 0 {
            Seq::empty()
        } else if self.accepts(events.first()) {
            seq![self.next(events.first()).pending()] + self.next(events.first()).trace(
                events.drop_first(),
            )
        } else {
            self.trace(events.drop_first())
        }
    }

    /// Whether the step has been performed and reported done.
    pub open spec fn has_completed(self, step: Step) -> bool {
        exists|i: int|
            0 <= i < self.completed && i < plan(self.config).len() && #[trigger] plan(
                self.config,
            )[i] == step
    }

    /// The line is bound and enabled.
    pub open spec fn line_enabled(self, line: InterruptLine) -> bool {
        self.has_completed(Step::Install(Install { line, priority: line.priority_of() }))
    }

    /// The modem has reported ready. Only then may it be given commands or
    /// asked for a socket.
    pub open spec fn modem_ready(self) -> bool {
        self.has_completed(Step::InitModem(self.config.system_mode))
    }
}

/// The bring-up of one session.
pub struct Lifecycle {
    config: LifecycleConfig,
    completed: u8,
    fault: Option<LinkError>,
}

impl View for Lifecycle {
    type V = LifecycleModel;

    closed spec fn view(&self) -> LifecycleModel {
        LifecycleModel {
            config: self.config,
            completed: self.completed as nat,
            fault: self.fault,
        }
    }
}

/// The step at a position of the plan, if the plan is that long.
fn step_at(config: &LifecycleConfig, index: u8) -> (step: Option<Step>)
    ensures
        index < plan(*config).len() ==> step == Some(plan(*config)[index as int]),
        index >= plan(*config).len() ==> step is None,
        plan(*config).len() <= 5,
{
    if index == 0 {
        Some(
            Step::Install(
                Install {
                    line: InterruptLine::ApplicationEvent,
                    priority: InterruptLine::ApplicationEvent.priority(),
                },
            ),
        )
    } else if index == 1 {
        Some(
            Step::Install(
                Install { line: InterruptLine::Ipc, priority: InterruptLine::Ipc.priority() },
            ),
        )
    } else if index == 2 {
        Some(Step::InitModem(config.system_mode))
    } else {
        match config.mode {
            Mode::PassThrough => None,
            Mode::Telemetry(remote) => if index == 3 {
                Some(Step::InstallCredentials)
            } else if index == 4 {
                Some(Step::Connect(remote))
            } else {
                None
            },
        }
    }
}

impl Lifecycle {
    #[verifier::type_invariant]
    spec fn within_plan(&self) -> bool {
        self.completed <= plan(self.config).len()
    }

    /// A lifecycle with nothing done, and the first step to perform.
    pub fn start(config: LifecycleConfig) -> (started: (Lifecycle, LifecycleAction))
        ensures
            started.0@ == LifecycleModel::start(config),
            started.1 == started.0@.pending(),
            started.0@.wf(),
    {
        let lifecycle = Lifecycle { config, completed: 0, fault: None };
        let first = lifecycle.pending();
        (lifecycle, first)
    }

    /// The sequence this lifecycle follows.
    pub fn config(&self) -> (config: LifecycleConfig)
        ensures
            config == self@.config,
    {
        self.config
    }

    /// What the firmware is to do in the present state.
    pub fn pending(&self) -> (action: LifecycleAction)
        ensures
            action == self@.pending(),
            self@.wf(),
    {
        proof {
            use_type_invariant(self);
        }
        match self.fault {
            Some(error) => LifecycleAction::Halt(error),
            None => match step_at(&self.config, self.completed) {
                Some(step) => LifecycleAction::Perform(step),
                None => LifecycleAction::Enter(self.config.mode.downstream()),
            },
        }
    }

    /// Takes the outcome of the pending step and answers with what to do
    /// next. An event that is not an outcome of the pending step is turned
    /// away: the answer is `None` and nothing changes.
    pub fn step(&mut self, event: LifecycleEvent) -> (answer: Option<LifecycleAction>)
        ensures
            final(self)@ == old(self)@.next(event),
            answer is Some <==> old(self)@.accepts(event),
            answer matches Some(action) ==> action == final(self)@.pending(),
            final(self)@.wf(),
    {
        proof {
            use_type_invariant(&*self);
        }
        if self.fault.is_some() {
            return None;
        }
        match step_at(&self.config, self.completed) {
            None => None,
            Some(step) => {
                if event == step.completion() {
                    self.completed = self.completed + 1;
                    Some(self.pending())
                } else {
                    match step.failure() {
                        Some(failure) => if event == failure.0 {
                            self.fault = Some(failure.1);
                            Some(LifecycleAction::Halt(failure.1))
                        } else {
                            None
                        },
                        None => None,
                    }
                }
            },
        }
    }

    /// Whether every step is done and none failed.
    pub fn is_running(&self) -> (running: bool)
        ensures
            running == self@.is_running(),
    {
        proof {
            use_type_invariant(self);
        }
        self.fault.is_none() && step_at(&self.config, self.completed).is_none()
    }

    /// Whether a step failed.
    pub fn is_halted(&self) -> (halted: bool)
        ensures
            halted == self@.is_halted(),
    {
        self.fault.is_some()
    }

    /// The failure that ended the bring-up, if one did.
    pub fn fault(&self) -> (fault: Option<LinkError>)
        ensures
            fault == self@.fault,
    {
        self.fault
    }

    /// Whether the line is bound and enabled.
    pub fn line_enabled(&self, line: InterruptLine) -> (enabled: bool)
        ensures
            enabled == self@.line_enabled(line),
    {
        proof {
            use_type_invariant(self);
        }
        let enabled = match line {
            InterruptLine::ApplicationEvent => self.completed >= 1,
            InterruptLine::Ipc => self.completed >= 2,
        };
        proof {
            let steps = plan(self.config);
            let wanted = Step::Install(Install { line, priority: line.priority_of() });
            if enabled {
                let at: int = if line == InterruptLine::ApplicationEvent {
                    0
                } else {
                    1
                };
                assert(steps[at] == wanted);
            }
        }
        enabled
    }

    /// Whether the modem has reported ready.
    pub fn modem_ready(&self) -> (ready: bool)
        ensures
            ready == self@.modem_ready(),
    {
        proof {
            use_type_invariant(self);
        }
        let ready = self.completed >= 3;
        proof {
            if ready {
                assert(plan(self.config)[2] == Step::InitModem(self.config.system_mode));
            }
        }
        ready
    }
}

impl Stage {
    /// The place of the stage among the four: the bridge first, the
    /// transport last.
    pub open spec fn rank_of(self) -> nat {
        match self {
            Stage::Bridge => 0,
            Stage::ModemInit => 1,
            Stage::Provisioning => 2,
            Stage::TransportConnect => 3,
        }
    }
}

/// The plan goes through the stages in their order and never back: the
/// bridge, then the modem, then the credentials, then the transport. A
/// pass-through session has the first two stages and no others; a telemetry
/// session has all four.
pub proof fn law_stages_in_order(config: LifecycleConfig, earlier: int, later: int)
    requires
        0 <= earlier <= later < plan(config).len(),
    ensures
        plan(config)[earlier].stage_of().rank_of() <= plan(config)[later].stage_of().rank_of(),
        plan(config)[0].stage_of() == Stage::Bridge,
        config.mode is PassThrough ==> plan(config)[plan(config).len() - 1].stage_of()
            == Stage::ModemInit,
        config.mode is Telemetry ==> plan(config)[plan(config).len() - 1].stage_of()
            == Stage::TransportConnect,
        config.mode is Telemetry ==> exists|at: int|
            0 <= at < plan(config).len() && #[trigger] plan(config)[at].stage_of()
                == Stage::Provisioning,
{
    if config.mode is Telemetry {
        assert(plan(config)[3].stage_of() == Stage::Provisioning);
    }
}

/// Steps are done in the plan's order. A step that is done has every step
/// ahead of it done too: the modem is ready only with both lines enabled,
/// and the transport is open only with the credentials in place.
pub proof fn law_done_steps_are_a_prefix(model: LifecycleModel, earlier: int, later: int)
    requires
        0 <= earlier <= later < plan(model.config).len(),
        model.has_completed(plan(model.config)[later]),
    ensures
        model.has_completed(plan(model.config)[earlier]),
        later < model.completed,
{
    let steps = plan(model.config);
    let done = choose|i: int|
        0 <= i < model.completed && i < steps.len() && #[trigger] steps[i] == steps[later];
    assert(forall|i: int, j: int|
        0 <= i < j < steps.len() ==> #[trigger] steps[i] != #[trigger] steps[j]);
    assert(done == later);
}

/// What is done stays done. No event takes a line down again or makes the
/// modem unready: a step that is done is still done after any event.
pub proof fn law_progress_is_kept(model: LifecycleModel, event: LifecycleEvent, step: Step)
    requires
        model.has_completed(step),
    ensures
        model.next(event).has_completed(step),
        model.next(event).config == model.config,
        model.next(event).completed >= model.completed,
{
    let steps = plan(model.config);
    let done = choose|i: int|
        0 <= i < model.completed && i < steps.len() && #[trigger] steps[i] == step;
    assert(plan(model.next(event).config)[done] == step);
}

/// A session that is running is ready: both interrupt lines are enabled and
/// the modem has reported ready, so a loop is entered only on a modem that
/// can take commands and open sockets.
pub proof fn law_running_session_is_ready(model: LifecycleModel)
    requires
        model.is_running(),
    ensures
        model.line_enabled(InterruptLine::ApplicationEvent),
        model.line_enabled(InterruptLine::Ipc),
        model.modem_ready(),
        model.config.mode matches Mode::Telemetry(remote) ==> model.has_completed(
            Step::InstallCredentials,
        ) && model.has_completed(Step::Connect(remote)),
{
    let steps = plan(model.config);
    assert(steps[0] == Step::Install(
        Install {
            line: InterruptLine::ApplicationEvent,
            priority: InterruptLine::ApplicationEvent.priority_of(),
        },
    ));
    assert(steps[1] == Step::Install(
        Install { line: InterruptLine::Ipc, priority: InterruptLine::Ipc.priority_of() },
    ));
    assert(steps[2] == Step::InitModem(model.config.system_mode));
    match model.config.mode {
        Mode::PassThrough => {},
        Mode::Telemetry(remote) => {
            assert(steps[3] == Step::InstallCredentials);
            assert(steps[4] == Step::Connect(remote));
        },
    }
}

/// The events that report each step of the plan done, in the plan's order.
pub open spec fn completions(config: LifecycleConfig) -> Seq<LifecycleEvent> {
    Seq::new(plan(config).len(), |i: int| plan(config)[i].completion_of())
}

/// Once a lifecycle has halted, or has brought the session up, no event
/// changes it and none is answered.
pub proof fn lemma_settled_is_final(model: LifecycleModel, events: Seq<LifecycleEvent>)
    requires
        model.is_halted() || model.is_running(),
    ensures
        model.run(events) == model,
        model.trace(events) == Seq::<LifecycleAction>::empty(),
    decreases events.len(),
{
    if events.len() > 0 {
        assert(!model.accepts(events.first()));
        lemma_settled_is_final(model, events.drop_first());
    }
}

/// From any state, the steps asked for in answer to a run of events are the
/// steps of the plan that follow the pending one, each at its place, and an
/// answer that is no step is the last answer.
proof fn lemma_trace_follows_plan(model: LifecycleModel, events: Seq<LifecycleEvent>)
    requires
        model.wf(),
    ensures
        model.run(events).wf(),
        forall|i: int|
            0 <= i < model.trace(events).len() && #[trigger] model.trace(events)[i] is Perform
                ==> model.completed + 1 + i < plan(model.config).len() && model.trace(events)[i]
                == LifecycleAction::Perform(plan(model.config)[model.completed + 1 + i]),
        forall|i: int|
            0 <= i < model.trace(events).len() && !(#[trigger] model.trace(events)[i] is Perform)
                ==> i == model.trace(events).len() - 1,
    decreases events.len(),
{
    if events.len() > 0 {
        let after = model.next(events.first());
        let rest = events.drop_first();
        lemma_trace_follows_plan(after, rest);
        if model.accepts(events.first()) {
            let head = seq![after.pending()];
            let tail = after.trace(rest);
            assert(model.trace(events) == head + tail);
            if !(after.pending() is Perform) {
                lemma_settled_is_final(after, rest);
            }
            assert forall|i: int|
                0 <= i < model.trace(events).len() && #[trigger] model.trace(
                    events,
                )[i] is Perform implies model.completed + 1 + i < plan(model.config).len()
                && model.trace(events)[i] == LifecycleAction::Perform(
                plan(model.config)[model.completed + 1 + i],
            ) by {
                if i > 0 {
                    assert(model.trace(events)[i] == tail[i - 1]);
                }
            }
            assert forall|i: int|
                0 <= i < model.trace(events).len() && !(#[trigger] model.trace(
                    events,
                )[i] is Perform) implies i == model.trace(events).len() - 1 by {
                if i > 0 {
                    assert(model.trace(events)[i] == tail[i - 1]);
                }
            }
        }
    }
}

/// The order of the steps is fixed. Whatever events arrive, and in whatever
/// order, the steps the firmware is asked to perform are the first steps of
/// the plan, each at its place; and once it has been told to enter a loop or
/// to halt, it is asked for nothing more.
pub proof fn law_steps_follow_plan(config: LifecycleConfig, events: Seq<LifecycleEvent>)
    ensures
        ({
            let start = LifecycleModel::start(config);
            let actions = seq![start.pending()] + start.trace(events);
            &&& forall|i: int|
                0 <= i < actions.len() && #[trigger] actions[i] is Perform ==> i < plan(
                    config,
                ).len() && actions[i] == LifecycleAction::Perform(plan(config)[i])
            &&& forall|i: int|
                0 <= i < actions.len() && !(#[trigger] actions[i] is Perform) ==> i
                    == actions.len() - 1
        }),
{
    let start = LifecycleModel::start(config);
    let tail = start.trace(events);
    let actions = seq![start.pending()] + tail;
    lemma_trace_follows_plan(start, events);
    assert forall|i: int| 0 <= i < actions.len() && #[trigger] actions[i] is Perform implies i
        < plan(config).len() && actions[i] == LifecycleAction::Perform(plan(config)[i]) by {
        if i > 0 {
            assert(actions[i] == tail[i - 1]);
        }
    }
    assert forall|i: int| 0 <= i < actions.len() && !(#[trigger] actions[i] is Perform) implies i
        == actions.len() - 1 by {
        if i > 0 {
            assert(actions[i] == tail[i - 1]);
        }
    }
}

/// A failed step ends the sequence. The lifecycle halts on the error of the
/// failed step, and whatever is reported afterwards, it performs no further
/// step and stays as it is.
pub proof fn law_failure_ends_sequence(
    model: LifecycleModel,
    event: LifecycleEvent,
    later: Seq<LifecycleEvent>,
)
    requires
        model.fails(event),
    ensures
        model.accepts(event),
        model.next(event).is_halted(),
        plan(model.config)[model.completed as int].failure_of() == Some(
            (event, model.next(event).fault->0),
        ),
        model.next(event).pending() == LifecycleAction::Halt(model.next(event).fault->0),
        model.next(event).completed == model.completed,
        model.next(event).trace(later) == Seq::<LifecycleAction>::empty(),
        model.next(event).run(later) == model.next(event),
{
    lemma_settled_is_final(model.next(event), later);
}

/// When every step is reported done in turn, every step of the plan is asked
/// for, in order, and the session ends up running.
pub proof fn law_plan_brings_session_up(config: LifecycleConfig)
    ensures
        LifecycleModel::start(config).run(completions(config)).is_running(),
        seq![LifecycleModel::start(config).pending()] + LifecycleModel::start(config).trace(
            completions(config),
        ) == Seq::new(plan(config).len(), |i: int| LifecycleAction::Perform(plan(config)[i]))
            + seq![LifecycleAction::Enter(config.mode.downstream_of())],
{
    lemma_completions_from(LifecycleModel::start(config), completions(config));
    let start = LifecycleModel::start(config);
    let actions = seq![start.pending()] + start.trace(completions(config));
    let expected = Seq::new(plan(config).len(), |i: int| LifecycleAction::Perform(plan(config)[i]))
        + seq![LifecycleAction::Enter(config.mode.downstream_of())];
    assert(actions.len() == expected.len());
    assert forall|i: int| 0 <= i < actions.len() implies actions[i] == expected[i] by {
        if i > 0 {
            assert(actions[i] == start.trace(completions(config))[i - 1]);
        }
    }
    assert(actions =~= expected);
}

/// From a state with some steps still to do, the completions of exactly
/// those steps bring the session up, asking for each later step on the way.
proof fn lemma_completions_from(model: LifecycleModel, events: Seq<LifecycleEvent>)
    requires
        model.wf(),
        model.fault is None,
        events.len() == plan(model.config).len() - model.completed,
        forall|i: int|
            0 <= i < events.len() ==> #[trigger] events[i] == plan(model.config)[model.completed
                + i].completion_of(),
    ensures
        model.run(events).is_running(),
        model.run(events).config == model.config,
        model.trace(events).len() == events.len(),
        forall|i: int|
            0 <= i < events.len() - 1 ==> #[trigger] model.trace(events)[i]
                == LifecycleAction::Perform(plan(model.config)[model.completed + 1 + i]),
        events.len() > 0 ==> model.trace(events)[events.len() - 1] == LifecycleAction::Enter(
            model.config.mode.downstream_of(),
        ),
    decreases events.len(),
{
    if events.len() > 0 {
        let after = model.next(events.first());
        let rest = events.drop_first();
        assert(events.first() == events[0]);
        assert(model.completes(events.first()));
        assert forall|i: int| 0 <= i < rest.len() implies #[trigger] rest[i] == plan(
            after.config,
        )[after.completed + i].completion_of() by {
            assert(rest[i] == events[i + 1]);
        }
        lemma_completions_from(after, rest);
        let tail = after.trace(rest);
        assert(model.trace(events) == seq![after.pending()] + tail);
        assert forall|i: int| 0 <= i < events.len() - 1 implies #[trigger] model.trace(events)[i]
            == LifecycleAction::Perform(plan(model.config)[model.completed + 1 + i]) by {
            if i > 0 {
                assert(model.trace(events)[i] == tail[i - 1]);
            }
        }
        if events.len() > 1 {
            assert(model.trace(events)[events.len() - 1] == tail[events.len() - 2]);
        }
    }
}

} // verus!
