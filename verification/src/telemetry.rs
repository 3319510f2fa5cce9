//! The sense-transmit loop of a telemetry session.
//!
//! One cycle runs per tick. It raises the activity indicator, writes a
//! telemetry line to the transport, asks the modem for the signal strength
//! and reports it, then tries to transmit the payload within a fixed time.
//! A transmission that arrives empties the payload. One that runs out of
//! time is counted and the payload is kept for the next cycle. Anything else
//! that goes wrong ends the loop.

use crate::error::LinkError;
use crate::lifecycle::{Lifecycle, Mode};
use crate::payload::{CapacityError, Payload, PayloadModel, Reading};
use vstd::prelude::*;

verus! {

/// The two fixed times of the loop, in seconds.
#[derive(Clone, Copy, Debug, PartialEq, Eq, Structural)]
pub struct LoopTiming {
    /// The time from one tick to the next.
    pub tick_interval_secs: u64,
    /// The longest a transmission may take.
    pub transmit_timeout_secs: u64,
}

/// Where a cycle stands.
#[derive(Clone, Copy, Debug, PartialEq, Eq, Structural)]
pub enum CyclePhase {
    /// Between cycles, suspended on the ticker.
    AwaitingTick,
    /// Suspended on the write of the telemetry line.
    WritingTelemetry,
    /// Suspended on the signal-strength query.
    QueryingSignal,
    /// Suspended on the transmission of the payload, under the timeout.
    Transmitting,
    /// Ended by a failure.
    Halted(LinkError),
}

/// What the firmware reports to the loop.
#[derive(Clone, Copy, Debug, PartialEq, Eq, Structural)]
pub enum LoopEvent {
    /// The ticker fired.
    Tick,
    /// The telemetry line is written.
    TelemetryWritten,
    /// The write of the telemetry line failed.
    TelemetryFailed,
    /// The modem reported this signal strength, in dBm.
    SignalReported(i32),
    /// The signal-strength query failed.
    SignalFailed,
    /// The payload arrived within the timeout.
    Transmitted,
    /// The timeout passed before the payload had arrived.
    TransmitTimedOut,
    /// The transmission failed within the timeout.
    TransmitFailed,
}

/// Something the firmware does at once, before it suspends again.
#[derive(Clone, Copy, Debug, PartialEq, Eq, Structural)]
pub enum Effect {
    /// Nothing to do.
    Nothing,
    /// Show that a cycle is under way.
    AssertIndicator,
    /// Show that the cycle is over.
    ReleaseIndicator,
    /// Log the signal strength, in dBm.
    ReportSignal(i32),
}

/// What the firmware suspends on.
#[derive(Clone, Copy, Debug, PartialEq, Eq, Structural)]
pub enum Operation {
    /// Wait for the next tick of a ticker with this interval.
    AwaitTick { interval_secs: u64 },
    /// Write the telemetry line to the transport.
    WriteTelemetry,
    /// Ask the modem for the signal strength.
    QuerySignal,
    /// Transmit the payload, giving up after this long.
    Transmit { timeout_secs: u64 },
    /// Log the error and stop.
    Halt(LinkError),
}

/// What the loop asks of the firmware: an effect to apply at once, then an
/// operation to suspend on and report the outcome of.
#[derive(Clone, Copy, Debug, PartialEq, Eq, Structural)]
pub struct Directive {
    pub effect: Effect,
    pub operation: Operation,
}

impl LoopTiming {
    /// The times of the reference device: a tick every 5 seconds, and 180
    /// seconds for a transmission.
    pub fn reference() -> (timing: LoopTiming)
        ensures
            timing == (LoopTiming { tick_interval_secs: 5, transmit_timeout_secs: 180 }),
    {
        LoopTiming { tick_interval_secs: 5, transmit_timeout_secs: 180 }
    }

    /// The outcome of a transmission that needs `needed_secs` to arrive: it
    /// arrives if it needs no longer than the timeout, and times out if it
    /// needs longer.
    pub open spec fn outcome_of(self, needed_secs: u64) -> LoopEvent {
        if needed_secs <= self.transmit_timeout_secs {
            LoopEvent::Transmitted
        } else {
            LoopEvent::TransmitTimedOut
        }
    }

    /// The outcome of a transmission that needs `needed_secs` to arrive.
    pub fn transmit_outcome(&self, needed_secs: u64) -> (event: LoopEvent)
        ensures
            event == self.outcome_of(needed_secs),
    {
        if needed_secs <= self.transmit_timeout_secs {
            LoopEvent::Transmitted
        } else {
            LoopEvent::TransmitTimedOut
        }
    }
}

/// A loop as mathematics: its times, where the cycle stands, and the payload.
#[verifier::ext_equal]
pub struct LoopModel {
    pub timing: LoopTiming,
    pub phase: CyclePhase,
    pub payload: PayloadModel,
}

impl LoopModel {
    /// A loop that has just been entered. Its first cycle is under way: it
    /// does not wait for a tick.
    pub open spec fn entered(timing: LoopTiming, payload: PayloadModel) -> LoopModel {
        LoopModel { timing, phase: CyclePhase::WritingTelemetry, payload }
    }

    /// What a cycle begins with.
    pub open spec fn opening() -> Directive {
        Directive { effect: Effect::AssertIndicator, operation: Operation::WriteTelemetry }
    }

    /// The event is an outcome of what the loop is suspended on. Any other
    /// event is turned away.
    pub open spec fn accepts(self, event: LoopEvent) -> bool {
        match self.phase {
            CyclePhase::AwaitingTick => event is Tick,
            CyclePhase::WritingTelemetry => event is TelemetryWritten || event is TelemetryFailed,
            CyclePhase::QueryingSignal => event is SignalReported || event is SignalFailed,
            CyclePhase::Transmitting => event is Transmitted || event is TransmitTimedOut
                || event is TransmitFailed,
            CyclePhase::Halted(_) => false,
        }
    }

    /// What the loop asks for in answer to an event it accepts.
    pub open spec fn answer(self, event: LoopEvent) -> Directive {
        match event {
            LoopEvent::Tick => Self::opening(),
            LoopEvent::TelemetryWritten => Directive {
                effect: Effect::Nothing,
                operation: Operation::QuerySignal,
            },
            LoopEvent::SignalReported(dbm) => Directive {
                effect: Effect::ReportSignal(dbm),
                operation: Operation::Transmit {
                    timeout_secs: self.timing.transmit_timeout_secs,
                },
            },
            LoopEvent::Transmitted | LoopEvent::TransmitTimedOut => Directive {
                effect: Effect::ReleaseIndicator,
                operation: Operation::AwaitTick { interval_secs: self.timing.tick_interval_secs },
            },
            LoopEvent::TelemetryFailed | LoopEvent::SignalFailed | LoopEvent::TransmitFailed => {
                Directive {
                    effect: Effect::Nothing,
                    operation: Operation::Halt(LinkError::Transport),
                }
            },
        }
    }

    /// Where the cycle stands once the loop is suspended on `operation`.
    pub open spec fn awaiting(operation: Operation) -> CyclePhase {
        match operation {
            Operation::AwaitTick { .. } => CyclePhase::AwaitingTick,
            Operation::WriteTelemetry => CyclePhase::WritingTelemetry,
            Operation::QuerySignal => CyclePhase::QueryingSignal,
            Operation::Transmit { .. } => CyclePhase::Transmitting,
            Operation::Halt(error) => CyclePhase::Halted(error),
        }
    }

    /// The payload after an event the loop accepts: emptied by a
    /// transmission that arrived, counted against by one that timed out, and
    /// left alone by everything else.
    pub open spec fn payload_after(self, event: LoopEvent) -> PayloadModel {
        match event {
            LoopEvent::Transmitted => self.payload.delivered(),
            LoopEvent::TransmitTimedOut => self.payload.timed_out(),
            _ => self.payload,
        }
    }

    /// The state after the event. An event that is turned away changes
    /// nothing.
    pub open spec fn next(self, event: LoopEvent) -> LoopModel {
        if self.accepts(event) {
            LoopModel {
                timing: self.timing,
                phase: Self::awaiting(self.answer(event).operation),
                payload: self.payload_after(event),
            }
        } else {
            self
        }
    }

    /// The state after a run of events, taken first to last.
    pub open spec fn run(self, events: Seq<LoopEvent>) -> LoopModel
        decreases events.len(),
    {
        if events.len() == 0 {
            self
        } else {
            self.next(events.first()).run(events.drop_first())
        }
    }

    /// The state after a reading is offered to the payload.
    pub open spec fn record(self, reading: Reading) -> LoopModel {
        LoopModel { payload: self.payload.push(reading), ..self }
    }
}

/// The events of one cycle in which everything works but the transmission,
/// which runs out of time.
pub open spec fn slow_cycle(dbm: i32) -> Seq<LoopEvent> {
    seq![
        LoopEvent::Tick,
        LoopEvent::TelemetryWritten,
        LoopEvent::SignalReported(dbm),
        LoopEvent::TransmitTimedOut,
    ]
}

/// The events of one slow cycle after another, one for each signal strength.
pub open spec fn slow_cycles(signals: Seq<i32>) -> Seq<LoopEvent>
    decreases signals.len(),
{
    if signals.len() == 0 {
        Seq::empty()
    } else {
        slow_cycle(signals.first()) + slow_cycles(signals.drop_first())
    }
}

/// The sense-transmit loop of one telemetry session.
pub struct SenseTransmitLoop {
    timing: LoopTiming,
    phase: CyclePhase,
    payload: Payload,
}

impl View for SenseTransmitLoop {
    type V = LoopModel;

    closed spec fn view(&self) -> LoopModel {
        LoopModel { timing: self.timing, phase: self.phase, payload: self.payload@ }
    }
}

impl SenseTransmitLoop {
    /// Starts the loop on a session that is up. There is a loop only for a
    /// telemetry session whose bring-up has finished without a failure, so
    /// that nothing is written before the transport is open. The first cycle
    /// begins at once, with the payload as it is handed in.
    pub fn enter(lifecycle: &Lifecycle, timing: LoopTiming, payload: Payload) -> (entered: Option<
        (SenseTransmitLoop, Directive),
    >)
        ensures
            entered is Some <==> lifecycle@.is_running() && lifecycle@.config.mode is Telemetry,
            entered matches Some(pair) ==> pair.0@ == LoopModel::entered(timing, payload@)
                && pair.1 == LoopModel::opening(),
    {
        let telemetry = match lifecycle.config().mode {
            Mode::PassThrough => false,
            Mode::Telemetry(_) => true,
        };
        if lifecycle.is_running() && telemetry {
            Some(
                (
                    SenseTransmitLoop { timing, phase: CyclePhase::WritingTelemetry, payload },
                    Directive {
                        effect: Effect::AssertIndicator,
                        operation: Operation::WriteTelemetry,
                    },
                ),
            )
        } else {
            None
        }
    }

    /// The times the loop runs on.
    pub fn timing(&self) -> (timing: LoopTiming)
        ensures
            timing == self@.timing,
    {
        self.timing
    }

    /// Where the cycle stands.
    pub fn phase(&self) -> (phase: CyclePhase)
        ensures
            phase == self@.phase,
    {
        self.phase
    }

    /// The payload, for the firmware to transmit from.
    pub fn payload(&self) -> (payload: &Payload)
        ensures
            payload@ == self@.payload,
    {
        &self.payload
    }

    /// Offers a reading to the payload, at any point of a cycle. A reading
    /// that finds the payload full is handed back and nothing changes.
    pub fn record(&mut self, reading: Reading) -> (result: Result<(), CapacityError>)
        ensures
            final(self)@ == old(self)@.record(reading),
            result is Ok <==> !old(self)@.payload.is_full(),
            result matches Err(error) ==> error.rejected == reading,
    {
        self.payload.push(reading)
    }

    /// Takes the outcome of what the loop is suspended on and answers with
    /// what to do next. An event that is no such outcome is turned away: the
    /// answer is `None` and nothing changes.
    ///
    /// The count of timeouts is a `u32`; a timeout can be taken only while
    /// the count has room to grow.
    pub fn step(&mut self, event: LoopEvent) -> (answer: Option<Directive>)
        requires
            old(self)@.phase is Transmitting && event is TransmitTimedOut ==> old(
                self,
            )@.payload.timeouts < u32::MAX,
        ensures
            final(self)@ == old(self)@.next(event),
            answer is Some <==> old(self)@.accepts(event),
            answer matches Some(directive) ==> directive == old(self)@.answer(event),
    {
        let halt = Directive {
            effect: Effect::Nothing,
            operation: Operation::Halt(LinkError::Transport),
        };
        let rest = Directive {
            effect: Effect::ReleaseIndicator,
            operation: Operation::AwaitTick { interval_secs: self.timing.tick_interval_secs },
        };
        match self.phase {
            CyclePhase::AwaitingTick => match event {
                LoopEvent::Tick => {
                    self.phase = CyclePhase::WritingTelemetry;
                    Some(
                        Directive {
                            effect: Effect::AssertIndicator,
                            operation: Operation::WriteTelemetry,
                        },
                    )
                },
                _ => None,
            },
            CyclePhase::WritingTelemetry => match event {
                LoopEvent::TelemetryWritten => {
                    self.phase = CyclePhase::QueryingSignal;
                    Some(Directive { effect: Effect::Nothing, operation: Operation::QuerySignal })
                },
                LoopEvent::TelemetryFailed => {
                    self.phase = CyclePhase::Halted(LinkError::Transport);
                    Some(halt)
                },
                _ => None,
            },
            CyclePhase::QueryingSignal => match event {
                LoopEvent::SignalReported(dbm) => {
                    self.phase = CyclePhase::Transmitting;
                    Some(
                        Directive {
                            effect: Effect::ReportSignal(dbm),
                            operation: Operation::Transmit {
                                timeout_secs: self.timing.transmit_timeout_secs,
                            },
                        },
                    )
                },
                LoopEvent::SignalFailed => {
                    self.phase = CyclePhase::Halted(LinkError::Transport);
                    Some(halt)
                },
                _ => None,
            },
            CyclePhase::Transmitting => match event {
                LoopEvent::Transmitted => {
                    self.payload.mark_delivered();
                    self.phase = CyclePhase::AwaitingTick;
                    Some(rest)
                },
                LoopEvent::TransmitTimedOut => {
                    self.payload.record_timeout();
                    self.phase = CyclePhase::AwaitingTick;
                    Some(rest)
                },
                LoopEvent::TransmitFailed => {
                    self.phase = CyclePhase::Halted(LinkError::Transport);
                    Some(halt)
                },
                _ => None,
            },
            CyclePhase::Halted(_) => None,
        }
    }
}

/// A timeout costs no data. A transmission that runs out of time adds
/// exactly one to the count of timeouts and leaves the readings, and the room
/// for them, as they were; the loop then waits for the next tick to try
/// again.
pub proof fn law_timeout_keeps_readings(model: LoopModel)
    requires
        model.phase is Transmitting,
    ensures
        model.accepts(LoopEvent::TransmitTimedOut),
        model.next(LoopEvent::TransmitTimedOut).payload.timeouts == model.payload.timeouts + 1,
        model.next(LoopEvent::TransmitTimedOut).payload.readings == model.payload.readings,
        model.next(LoopEvent::TransmitTimedOut).payload.capacity == model.payload.capacity,
        model.next(LoopEvent::TransmitTimedOut).phase == CyclePhase::AwaitingTick,
{
}

/// A transmission that arrives clears the record: no timeouts are left on
/// the count and no readings in the payload.
pub proof fn law_delivery_resets(model: LoopModel)
    requires
        model.phase is Transmitting,
    ensures
        model.accepts(LoopEvent::Transmitted),
        model.next(LoopEvent::Transmitted).payload.timeouts == 0,
        model.next(LoopEvent::Transmitted).payload.readings == Seq::<Reading>::empty(),
        model.next(LoopEvent::Transmitted).payload.capacity == model.payload.capacity,
        model.next(LoopEvent::Transmitted).phase == CyclePhase::AwaitingTick,
{
}

/// Only the two outcomes of a transmission touch the payload, only a
/// transmission that arrived takes readings out of it, and only a timeout is
/// recovered from: every failure that the loop accepts halts it on a
/// transport error, with the payload as it was.
pub proof fn law_only_timeout_is_recovered(model: LoopModel, event: LoopEvent)
    requires
        model.accepts(event),
    ensures
        !(event is Transmitted || event is TransmitTimedOut) ==> model.next(event).payload
            == model.payload,
        !(event is Transmitted) ==> model.next(event).payload.readings == model.payload.readings,
        event is TelemetryFailed || event is SignalFailed || event is TransmitFailed
            <==> model.next(event).phase == CyclePhase::Halted(LinkError::Transport),
        model.next(event).phase is Halted <==> model.answer(event).operation is Halt,
{
}

/// A failure is final. Once the loop has halted, it turns every event away
/// and stays as it is.
pub proof fn law_halted_loop_is_final(model: LoopModel, events: Seq<LoopEvent>)
    requires
        model.phase is Halted,
    ensures
        model.run(events) == model,
    decreases events.len(),
{
    if events.len() > 0 {
        law_halted_loop_is_final(model, events.drop_first());
    }
}

/// A run of events in two parts ends where the second part ends when it
/// starts where the first part ended.
pub proof fn lemma_run_splits(model: LoopModel, first: Seq<LoopEvent>, second: Seq<LoopEvent>)
    ensures
        model.run(first + second) == model.run(first).run(second),
    decreases first.len(),
{
    if first.len() == 0 {
        assert(first + second =~= second);
    } else {
        assert((first + second).first() == first.first());
        assert((first + second).drop_first() =~= first.drop_first() + second);
        lemma_run_splits(model.next(first.first()), first.drop_first(), second);
    }
}

/// Every slow cycle counts once. From between two cycles, a run of cycles
/// whose transmissions all run out of time adds one timeout for each cycle,
/// keeps every reading, and ends between two cycles again.
pub proof fn law_each_slow_cycle_counts_once(model: LoopModel, signals: Seq<i32>)
    requires
        model.phase is AwaitingTick,
    ensures
        model.run(slow_cycles(signals)) == (LoopModel {
            payload: PayloadModel {
                timeouts: model.payload.timeouts + signals.len(),
                ..model.payload
            },
            ..model
        }),
    decreases signals.len(),
{
    if signals.len() > 0 {
        let cycle = slow_cycle(signals.first());
        let ticked = model.next(LoopEvent::Tick);
        let written = ticked.next(LoopEvent::TelemetryWritten);
        let queried = written.next(LoopEvent::SignalReported(signals.first()));
        let after = queried.next(LoopEvent::TransmitTimedOut);
        let c1 = cycle.drop_first();
        let c2 = c1.drop_first();
        let c3 = c2.drop_first();
        assert(cycle.first() == LoopEvent::Tick);
        assert(c1.first() == LoopEvent::TelemetryWritten);
        assert(c2.first() == LoopEvent::SignalReported(signals.first()));
        assert(c3.first() == LoopEvent::TransmitTimedOut);
        assert(c3.drop_first().len() == 0);
        assert(after.run(c3.drop_first()) == after);
        assert(queried.run(c3) == after);
        assert(written.run(c2) == after);
        assert(ticked.run(c1) == after);
        assert(model.run(cycle) == after);
        lemma_run_splits(model, cycle, slow_cycles(signals.drop_first()));
        law_each_slow_cycle_counts_once(after, signals.drop_first());
    }
}

} // verus!
