//! The pass-through relay between the serial line and the command engine.
//!
//! The relay waits for a frame, hands a frame that is not empty to the
//! command engine, writes the engine's response back to the line, and waits
//! again. It has no end of its own. A failure of the line or of the engine is
//! not retried: it halts the relay for good.

use crate::error::LinkError;
use crate::frame::CommandFrame;
use crate::lifecycle::{Lifecycle, Mode};
use vstd::prelude::*;

verus! {

/// Where the relay stands.
#[derive(Clone, Copy, Debug, PartialEq, Eq, Structural)]
pub enum RelayState {
    /// Suspended on a read of the serial line.
    WaitingForFrame,
    /// Suspended on the command engine.
    Dispatching,
    /// Suspended on a write to the serial line.
    WritingResponse,
    /// Ended by a failure.
    Halted(LinkError),
}

/// What the firmware reports to the relay.
#[derive(Debug, PartialEq, Eq)]
pub enum RelayEvent {
    /// A read ended and captured this frame, which may be empty.
    FrameRead(CommandFrame),
    /// The read failed.
    ReadFailed,
    /// The engine executed the command and returned these bytes.
    Responded(Vec<u8>),
    /// The engine failed.
    EngineFailed,
    /// The response is written out.
    Written,
    /// The write failed.
    WriteFailed,
}

/// What the relay asks of the firmware.
#[derive(Debug, PartialEq, Eq)]
pub enum RelayAction {
    /// Read the serial line until the buffer is full or the line is idle.
    AwaitFrame,
    /// Submit the frame to the command engine.
    Dispatch(CommandFrame),
    /// Write these bytes to the serial line.
    Write(Vec<u8>),
    /// Log the error and stop.
    Halt(LinkError),
}

/// A [`RelayEvent`] as mathematics.
pub enum RelayInput {
    FrameRead(Seq<u8>),
    ReadFailed,
    Responded(Seq<u8>),
    EngineFailed,
    Written,
    WriteFailed,
}

/// A [`RelayAction`] as mathematics.
pub enum RelayOutput {
    AwaitFrame,
    Dispatch(Seq<u8>),
    Write(Seq<u8>),
    Halt(LinkError),
}

impl View for RelayEvent {
    type V = RelayInput;

    open spec fn view(&self) -> RelayInput {
        match self {
            RelayEvent::FrameRead(frame) => RelayInput::FrameRead(frame@),
            RelayEvent::ReadFailed => RelayInput::ReadFailed,
            RelayEvent::Responded(bytes) => RelayInput::Responded(bytes@),
            RelayEvent::EngineFailed => RelayInput::EngineFailed,
            RelayEvent::Written => RelayInput::Written,
            RelayEvent::WriteFailed => RelayInput::WriteFailed,
        }
    }
}

impl View for RelayAction {
    type V = RelayOutput;

    open spec fn view(&self) -> RelayOutput {
        match self {
            RelayAction::AwaitFrame => RelayOutput::AwaitFrame,
            RelayAction::Dispatch(frame) => RelayOutput::Dispatch(frame@),
            RelayAction::Write(bytes) => RelayOutput::Write(bytes@),
            RelayAction::Halt(error) => RelayOutput::Halt(*error),
        }
    }
}

impl RelayState {
    /// The input is an outcome of what the relay is suspended on. Any other
    /// input is turned away.
    pub open spec fn accepts(self, input: RelayInput) -> bool {
        match self {
            RelayState::WaitingForFrame => input is FrameRead || input is ReadFailed,
            RelayState::Dispatching => input is Responded || input is EngineFailed,
            RelayState::WritingResponse => input is Written || input is WriteFailed,
            RelayState::Halted(_) => false,
        }
    }

    /// What the relay asks for in answer to an input it accepts.
    pub open spec fn answer(self, input: RelayInput) -> RelayOutput {
        match input {
            RelayInput::FrameRead(frame) => if frame.len() == 0 {
                RelayOutput::AwaitFrame
            } else {
                RelayOutput::Dispatch(frame)
            },
            RelayInput::ReadFailed => RelayOutput::Halt(LinkError::Uart),
            RelayInput::Responded(bytes) => RelayOutput::Write(bytes),
            RelayInput::EngineFailed => RelayOutput::Halt(LinkError::Engine),
            RelayInput::Written => RelayOutput::AwaitFrame,
            RelayInput::WriteFailed => RelayOutput::Halt(LinkError::Uart),
        }
    }

    /// What the relay is suspended on once it has asked for `output`.
    pub open spec fn awaiting(output: RelayOutput) -> RelayState {
        match output {
            RelayOutput::AwaitFrame => RelayState::WaitingForFrame,
            RelayOutput::Dispatch(_) => RelayState::Dispatching,
            RelayOutput::Write(_) => RelayState::WritingResponse,
            RelayOutput::Halt(error) => RelayState::Halted(error),
        }
    }

    /// The state after the input. An input that is turned away changes
    /// nothing.
    pub open spec fn next(self, input: RelayInput) -> RelayState {
        if self.accepts(input) {
            Self::awaiting(self.answer(input))
        } else {
            self
        }
    }

    /// The state after a run of inputs, taken first to last.
    pub open spec fn run(self, inputs: Seq<RelayInput>) -> RelayState
        decreases inputs.len(),
    {
        if inputs.len() == 0 {
            self
        } else {
            self.next(inputs.first()).run(inputs.drop_first())
        }
    }

    /// The outputs given in answer to a run of inputs, one for each input
    /// that was not turned away.
    pub open spec fn trace(self, inputs: Seq<RelayInput>) -> Seq<RelayOutput>
        decreases inputs.len(),
    {
        if inputs.len() == 0 {
            Seq::empty()
        } else if self.accepts(inputs.first()) {
            seq![self.answer(inputs.first())] + self.next(inputs.first()).trace(
                inputs.drop_first(),
            )
        } else {
            self.trace(inputs.drop_first())
        }
    }
}

/// The relay of one pass-through session.
pub struct CommandRelay {
    state: RelayState,
}

impl View for CommandRelay {
    type V = RelayState;

    closed spec fn view(&self) -> RelayState {
        self.state
    }
}

impl CommandRelay {
    /// Starts the relay on a session that is up. There is a relay only for a
    /// pass-through session whose bring-up has finished without a failure, so
    /// that no command reaches a modem that is not ready. The relay starts
    /// out waiting for a frame.
    pub fn enter(lifecycle: &Lifecycle) -> (entered: Option<(CommandRelay, RelayAction)>)
        ensures
            entered is Some <==> lifecycle@.is_running() && lifecycle@.config.mode is PassThrough,
            entered matches Some(pair) ==> pair.0@ == RelayState::WaitingForFrame && pair.1@
                == RelayOutput::AwaitFrame,
    {
        let pass_through = match lifecycle.config().mode {
            Mode::PassThrough => true,
            Mode::Telemetry(_) => false,
        };
        if lifecycle.is_running() && pass_through {
            Some((CommandRelay { state: RelayState::WaitingForFrame }, RelayAction::AwaitFrame))
        } else {
            None
        }
    }

    /// Where the relay stands.
    pub fn state(&self) -> (state: RelayState)
        ensures
            state == self@,
    {
        self.state
    }

    /// Takes the outcome of what the relay is suspended on and answers with
    /// what to do next. An event that is no such outcome is turned away: the
    /// answer is `None` and nothing changes.
    pub fn step(&mut self, event: RelayEvent) -> (answer: Option<RelayAction>)
        ensures
            final(self)@ == old(self)@.next(event@),
            answer is Some <==> old(self)@.accepts(event@),
            answer matches Some(action) ==> action@ == old(self)@.answer(event@),
    {
        match self.state {
            RelayState::WaitingForFrame => match event {
                RelayEvent::FrameRead(frame) => {
                    if frame.is_empty() {
                        Some(RelayAction::AwaitFrame)
                    } else {
                        self.state = RelayState::Dispatching;
                        Some(RelayAction::Dispatch(frame))
                    }
                },
                RelayEvent::ReadFailed => {
                    self.state = RelayState::Halted(LinkError::Uart);
                    Some(RelayAction::Halt(LinkError::Uart))
                },
                _ => None,
            },
            RelayState::Dispatching => match event {
                RelayEvent::Responded(bytes) => {
                    self.state = RelayState::WritingResponse;
                    Some(RelayAction::Write(bytes))
                },
                RelayEvent::EngineFailed => {
                    self.state = RelayState::Halted(LinkError::Engine);
                    Some(RelayAction::Halt(LinkError::Engine))
                },
                _ => None,
            },
            RelayState::WritingResponse => match event {
                RelayEvent::Written => {
                    self.state = RelayState::WaitingForFrame;
                    Some(RelayAction::AwaitFrame)
                },
                RelayEvent::WriteFailed => {
                    self.state = RelayState::Halted(LinkError::Uart);
                    Some(RelayAction::Halt(LinkError::Uart))
                },
                _ => None,
            },
            RelayState::Halted(_) => None,
        }
    }
}

/// A frame that is not empty goes round once. It is dispatched as it was
/// read, the engine's response is written out once and as it was returned,
/// and the relay is back waiting for a frame.
pub proof fn law_frame_round_trip(frame: Seq<u8>, response: Seq<u8>)
    requires
        frame.len() > 0,
    ensures
        RelayState::WaitingForFrame.trace(
            seq![
                RelayInput::FrameRead(frame),
                RelayInput::Responded(response),
                RelayInput::Written,
            ],
        ) == seq![
            RelayOutput::Dispatch(frame),
            RelayOutput::Write(response),
            RelayOutput::AwaitFrame,
        ],
        RelayState::WaitingForFrame.run(
            seq![
                RelayInput::FrameRead(frame),
                RelayInput::Responded(response),
                RelayInput::Written,
            ],
        ) == RelayState::WaitingForFrame,
{
    let inputs = seq![
        RelayInput::FrameRead(frame),
        RelayInput::Responded(response),
        RelayInput::Written,
    ];
    let after_read = inputs.drop_first();
    let after_response = after_read.drop_first();
    let done = after_response.drop_first();
    assert(inputs.first() == RelayInput::FrameRead(frame));
    assert(after_read.first() == RelayInput::Responded(response));
    assert(after_response.first() == RelayInput::Written);
    assert(done.len() == 0);
    assert(RelayState::WaitingForFrame.trace(done) == Seq::<RelayOutput>::empty());
    assert(RelayState::WaitingForFrame.run(done) == RelayState::WaitingForFrame);
    assert(RelayState::WritingResponse.trace(after_response) == seq![RelayOutput::AwaitFrame]
        + RelayState::WaitingForFrame.trace(done));
    assert(RelayState::WritingResponse.run(after_response) == RelayState::WaitingForFrame);
    assert(RelayState::Dispatching.trace(after_read) == seq![RelayOutput::Write(response)]
        + RelayState::WritingResponse.trace(after_response));
    assert(RelayState::Dispatching.run(after_read) == RelayState::WaitingForFrame);
    assert(RelayState::WaitingForFrame.trace(inputs) == seq![RelayOutput::Dispatch(frame)]
        + RelayState::Dispatching.trace(after_read));
    assert(RelayState::WaitingForFrame.trace(inputs) =~= seq![
        RelayOutput::Dispatch(frame),
        RelayOutput::Write(response),
        RelayOutput::AwaitFrame,
    ]);
}

/// An empty frame goes nowhere. Nothing is dispatched and nothing is
/// written: the relay asks for the next frame and waits as before.
pub proof fn law_empty_frame_is_dropped(frame: Seq<u8>)
    requires
        frame.len() == 0,
    ensures
        RelayState::WaitingForFrame.accepts(RelayInput::FrameRead(frame)),
        RelayState::WaitingForFrame.answer(RelayInput::FrameRead(frame))
            == RelayOutput::AwaitFrame,
        RelayState::WaitingForFrame.next(RelayInput::FrameRead(frame))
            == RelayState::WaitingForFrame,
        RelayState::WaitingForFrame.trace(seq![RelayInput::FrameRead(frame)])
            == seq![RelayOutput::AwaitFrame],
{
    let inputs = seq![RelayInput::FrameRead(frame)];
    assert(inputs.first() == RelayInput::FrameRead(frame));
    assert(inputs.drop_first().len() == 0);
    assert(RelayState::WaitingForFrame.trace(inputs.drop_first())
        == Seq::<RelayOutput>::empty());
    assert(RelayState::WaitingForFrame.trace(inputs) =~= seq![RelayOutput::AwaitFrame]);
}

/// A failure is final. Once the relay has halted, it turns every input away,
/// asks for nothing and stays halted.
pub proof fn law_halt_is_final(error: LinkError, inputs: Seq<RelayInput>)
    ensures
        RelayState::Halted(error).run(inputs) == RelayState::Halted(error),
        RelayState::Halted(error).trace(inputs) == Seq::<RelayOutput>::empty(),
    decreases inputs.len(),
{
    if inputs.len() > 0 {
        law_halt_is_final(error, inputs.drop_first());
    }
}

/// Only an outcome of what the relay is suspended on moves it, and every
/// failure among them halts it: a failed read or write on the serial line's
/// error, a failed command on the engine's.
pub proof fn law_failures_halt(state: RelayState, input: RelayInput)
    requires
        state.accepts(input),
    ensures
        input is ReadFailed || input is WriteFailed ==> state.next(input) == RelayState::Halted(
            LinkError::Uart,
        ),
        input is EngineFailed ==> state.next(input) == RelayState::Halted(LinkError::Engine),
        input is FrameRead || input is Responded || input is Written ==> !(state.next(
            input,
        ) is Halted),
{
}

} // verus!
