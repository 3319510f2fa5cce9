//! The two interrupt lines that carry the modem's events into the scheduler.
//!
//! A line is bound to a handler and enabled once, at startup, and stays so.
//! Its handler does a fixed, short piece of work in interrupt context: it
//! passes the event to the modem's own entry point, then wakes the scheduler,
//! so that a task suspended on modem progress runs again.

use vstd::prelude::*;

verus! {

/// A hardware interrupt source of the modem.
#[derive(Clone, Copy, Debug, PartialEq, Eq, Structural)]
pub enum InterruptLine {
    /// General bookkeeping events of the modem library.
    ApplicationEvent,
    /// Messages from the co-processor. Losing one stalls the link.
    Ipc,
}

/// An interrupt priority. A lower number is more urgent: a handler running
/// at one level is interrupted by any line of a lower number.
#[derive(Clone, Copy, Debug, PartialEq, Eq, Structural)]
pub enum Priority {
    P0,
    P1,
    P2,
    P3,
    P4,
    P5,
    P6,
    P7,
}

impl Priority {
    /// The number of the level, 0 for the most urgent.
    pub open spec fn level_of(self) -> nat {
        match self {
            Priority::P0 => 0,
            Priority::P1 => 1,
            Priority::P2 => 2,
            Priority::P3 => 3,
            Priority::P4 => 4,
            Priority::P5 => 5,
            Priority::P6 => 6,
            Priority::P7 => 7,
        }
    }

    /// The number of the level, 0 for the most urgent.
    pub fn level(self) -> (level: u8)
        ensures
            level == self.level_of(),
    {
        match self {
            Priority::P0 => 0,
            Priority::P1 => 1,
            Priority::P2 => 2,
            Priority::P3 => 3,
            Priority::P4 => 4,
            Priority::P5 => 5,
            Priority::P6 => 6,
            Priority::P7 => 7,
        }
    }

    /// Whether a handler at this priority interrupts one at `other`.
    pub fn preempts(self, other: Priority) -> (preempts: bool)
        ensures
            preempts <==> self.level_of() < other.level_of(),
    {
        self.level() < other.level()
    }
}

/// One thing a handler does when its line fires.
#[derive(Clone, Copy, Debug, PartialEq, Eq, Structural)]
pub enum HandlerStep {
    /// Pass the event to the modem's entry point for the line.
    Forward(InterruptLine),
    /// Signal the scheduler that a suspended task may run.
    Wake,
}

/// A line to bind and enable, and the priority to give it.
#[derive(Clone, Copy, Debug, PartialEq, Eq, Structural)]
pub struct Install {
    pub line: InterruptLine,
    pub priority: Priority,
}

impl InterruptLine {
    /// The priority the line runs at: the co-processor's messages above
    /// everything, the bookkeeping events in the middle of the range.
    pub open spec fn priority_of(self) -> Priority {
        match self {
            InterruptLine::ApplicationEvent => Priority::P4,
            InterruptLine::Ipc => Priority::P0,
        }
    }

    /// The priority the line runs at.
    pub fn priority(self) -> (priority: Priority)
        ensures
            priority == self.priority_of(),
    {
        match self {
            InterruptLine::ApplicationEvent => Priority::P4,
            InterruptLine::Ipc => Priority::P0,
        }
    }

    /// What the line's handler does, in order: forward first, wake second.
    pub open spec fn handler_of(self) -> Seq<HandlerStep> {
        seq![HandlerStep::Forward(self), HandlerStep::Wake]
    }

    /// What the line's handler does, in order.
    pub fn handler(self) -> (steps: [HandlerStep; 2])
        ensures
            steps@ == self.handler_of(),
    {
        let steps = [HandlerStep::Forward(self), HandlerStep::Wake];
        assert(steps@ =~= self.handler_of());
        steps
    }
}

/// The lines to install at startup, in the order to install them.
pub open spec fn startup_installs() -> Seq<Install> {
    seq![
        Install { line: InterruptLine::ApplicationEvent, priority: Priority::P4 },
        Install { line: InterruptLine::Ipc, priority: Priority::P0 },
    ]
}

/// The lines to install at startup, in the order to install them, each at
/// the priority of its line.
pub fn startup_plan() -> (plan: [Install; 2])
    ensures
        plan@ == startup_installs(),
        forall|i: int| 0 <= i < 2 ==> (#[trigger] plan@[i]).priority == plan@[i].line.priority_of(),
{
    let plan = [
        Install { line: InterruptLine::ApplicationEvent, priority: InterruptLine::ApplicationEvent.priority() },
        Install { line: InterruptLine::Ipc, priority: InterruptLine::Ipc.priority() },
    ];
    assert(plan@ =~= startup_installs());
    plan
}

/// The co-processor's line interrupts every other line, and nothing
/// interrupts it.
pub proof fn law_ipc_is_most_urgent(priority: Priority)
    ensures
        InterruptLine::Ipc.priority_of().level_of() <= priority.level_of(),
        InterruptLine::Ipc.priority_of().level_of()
            < InterruptLine::ApplicationEvent.priority_of().level_of(),
{
}

} // verus!
