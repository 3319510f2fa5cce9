use propane_monitor_embassy::bridge::InterruptLine;
use propane_monitor_embassy::error::LinkError;
use propane_monitor_embassy::lifecycle::{
    BearerPreference, Endpoint, Lifecycle, LifecycleConfig, LifecycleEvent, Mode, Protocol,
    Remote, SystemMode,
};
use propane_monitor_embassy::payload::{CapacityError, Payload, Reading};
use propane_monitor_embassy::telemetry::{
    CyclePhase, Directive, Effect, LoopEvent, LoopTiming, Operation, SenseTransmitLoop,
};

fn remote() -> Remote {
    Remote {
        endpoint: Endpoint { a: 79, b: 136, c: 27, d: 216, port: 5684 },
        protocol: Protocol::PlainStream,
    }
}

fn config(mode: Mode) -> LifecycleConfig {
    LifecycleConfig {
        system_mode: SystemMode {
            lte: true,
            power_saving: true,
            nbiot: false,
            gnss: false,
            preference: BearerPreference::Lte,
        },
        mode,
    }
}

fn bring_up(mode: Mode) -> Lifecycle {
    let (mut lifecycle, _) = Lifecycle::start(config(mode));
    for event in [
        LifecycleEvent::Installed(InterruptLine::ApplicationEvent),
        LifecycleEvent::Installed(InterruptLine::Ipc),
        LifecycleEvent::ModemReady,
        LifecycleEvent::CredentialsInstalled,
        LifecycleEvent::Connected,
    ] {
        lifecycle.step(event);
    }
    assert!(lifecycle.is_running());
    lifecycle
}

fn reading(n: u32) -> Reading {
    Reading { value: 40 + n, timestamp: 1987 + n, auxiliary: 3700 }
}

fn entered(payload: Payload) -> SenseTransmitLoop {
    let lifecycle = bring_up(Mode::Telemetry(remote()));
    let (machine, first) =
        SenseTransmitLoop::enter(&lifecycle, LoopTiming::reference(), payload).unwrap();
    assert_eq!(first, opening());
    machine
}

fn opening() -> Directive {
    Directive { effect: Effect::AssertIndicator, operation: Operation::WriteTelemetry }
}

fn rest() -> Directive {
    Directive {
        effect: Effect::ReleaseIndicator,
        operation: Operation::AwaitTick { interval_secs: 5 },
    }
}

fn halt() -> Directive {
    Directive { effect: Effect::Nothing, operation: Operation::Halt(LinkError::Transport) }
}

const ALL_EVENTS: [LoopEvent; 8] = [
    LoopEvent::Tick,
    LoopEvent::TelemetryWritten,
    LoopEvent::TelemetryFailed,
    LoopEvent::SignalReported(-101),
    LoopEvent::SignalFailed,
    LoopEvent::Transmitted,
    LoopEvent::TransmitTimedOut,
    LoopEvent::TransmitFailed,
];

/// Runs a cycle up to the point where the payload is being transmitted.
fn run_to_transmit(machine: &mut SenseTransmitLoop) {
    if machine.phase() == CyclePhase::AwaitingTick {
        assert_eq!(machine.step(LoopEvent::Tick), Some(opening()));
    }
    machine.step(LoopEvent::TelemetryWritten).unwrap();
    machine.step(LoopEvent::SignalReported(-95)).unwrap();
    assert_eq!(machine.phase(), CyclePhase::Transmitting);
}

#[test]
fn reference_timing_is_5_and_180_seconds() {
    assert_eq!(
        LoopTiming::reference(),
        LoopTiming { tick_interval_secs: 5, transmit_timeout_secs: 180 }
    );
}

#[test]
fn loop_needs_a_running_telemetry_session() {
    let (lifecycle, _) = Lifecycle::start(config(Mode::Telemetry(remote())));
    assert!(SenseTransmitLoop::enter(&lifecycle, LoopTiming::reference(), Payload::new(4))
        .is_none());
    let pass_through = bring_up(Mode::PassThrough);
    assert!(SenseTransmitLoop::enter(&pass_through, LoopTiming::reference(), Payload::new(4))
        .is_none());
}

#[test]
fn no_loop_before_the_transport_is_open() {
    let (mut lifecycle, _) = Lifecycle::start(config(Mode::Telemetry(remote())));
    for event in [
        LifecycleEvent::Installed(InterruptLine::ApplicationEvent),
        LifecycleEvent::Installed(InterruptLine::Ipc),
        LifecycleEvent::ModemReady,
        LifecycleEvent::CredentialsInstalled,
    ] {
        lifecycle.step(event).unwrap();
        assert!(SenseTransmitLoop::enter(&lifecycle, LoopTiming::reference(), Payload::new(4))
            .is_none());
    }
    lifecycle.step(LifecycleEvent::ConnectFailed).unwrap();
    assert!(SenseTransmitLoop::enter(&lifecycle, LoopTiming::reference(), Payload::new(4))
        .is_none());
}

#[test]
fn first_cycle_begins_at_once() {
    let machine = entered(Payload::new(4));
    assert_eq!(machine.phase(), CyclePhase::WritingTelemetry);
    assert_eq!(machine.timing(), LoopTiming::reference());
    assert!(machine.payload().is_empty());
}

#[test]
fn cycle_runs_in_order() {
    let mut machine = entered(Payload::new(4));
    assert_eq!(
        machine.step(LoopEvent::TelemetryWritten),
        Some(Directive { effect: Effect::Nothing, operation: Operation::QuerySignal })
    );
    assert_eq!(machine.phase(), CyclePhase::QueryingSignal);
    assert_eq!(
        machine.step(LoopEvent::SignalReported(-87)),
        Some(Directive {
            effect: Effect::ReportSignal(-87),
            operation: Operation::Transmit { timeout_secs: 180 },
        })
    );
    assert_eq!(machine.phase(), CyclePhase::Transmitting);
    assert_eq!(machine.step(LoopEvent::Transmitted), Some(rest()));
    assert_eq!(machine.phase(), CyclePhase::AwaitingTick);
    assert_eq!(machine.step(LoopEvent::Tick), Some(opening()));
    assert_eq!(machine.phase(), CyclePhase::WritingTelemetry);
}

#[test]
fn directives_carry_the_configured_times() {
    let lifecycle = bring_up(Mode::Telemetry(remote()));
    let timing = LoopTiming { tick_interval_secs: 60, transmit_timeout_secs: 15 };
    let (mut machine, _) = SenseTransmitLoop::enter(&lifecycle, timing, Payload::new(1)).unwrap();
    machine.step(LoopEvent::TelemetryWritten).unwrap();
    assert_eq!(
        machine.step(LoopEvent::SignalReported(0)).unwrap().operation,
        Operation::Transmit { timeout_secs: 15 }
    );
    assert_eq!(
        machine.step(LoopEvent::TransmitTimedOut).unwrap().operation,
        Operation::AwaitTick { interval_secs: 60 }
    );
}

#[test]
fn timeout_increments_once_and_keeps_the_readings() {
    let mut payload = Payload::new(4);
    payload.push(reading(0)).unwrap();
    payload.push(reading(1)).unwrap();
    let mut machine = entered(payload);
    run_to_transmit(&mut machine);
    assert_eq!(machine.payload().timeouts(), 0);

    assert_eq!(machine.step(LoopEvent::TransmitTimedOut), Some(rest()));
    assert_eq!(machine.payload().timeouts(), 1);
    assert_eq!(machine.payload().readings(), &[reading(0), reading(1)][..]);
    assert_eq!(machine.payload().capacity(), 4);
    assert_eq!(machine.phase(), CyclePhase::AwaitingTick);
}

#[test]
fn delivery_resets_the_count_and_empties_the_payload() {
    let mut payload = Payload::new(4);
    payload.push(reading(0)).unwrap();
    let mut machine = entered(payload);
    run_to_transmit(&mut machine);
    machine.step(LoopEvent::TransmitTimedOut).unwrap();
    machine.record(reading(1)).unwrap();
    run_to_transmit(&mut machine);
    machine.step(LoopEvent::TransmitTimedOut).unwrap();
    assert_eq!(machine.payload().timeouts(), 2);
    assert_eq!(machine.payload().len(), 2);

    run_to_transmit(&mut machine);
    assert_eq!(machine.step(LoopEvent::Transmitted), Some(rest()));
    assert_eq!(machine.payload().timeouts(), 0);
    assert!(machine.payload().is_empty());
    assert_eq!(machine.payload().capacity(), 4);
}

#[test]
fn transmit_of_200_seconds_times_out_once_per_cycle() {
    let timing = LoopTiming::reference();
    assert_eq!(timing.tick_interval_secs, 5);
    assert_eq!(timing.transmit_timeout_secs, 180);
    let mut payload = Payload::new(6);
    payload.push(reading(0)).unwrap();
    let mut machine = entered(payload);

    for cycle in 1u32..=3 {
        run_to_transmit(&mut machine);
        let outcome = machine.timing().transmit_outcome(200);
        assert_eq!(outcome, LoopEvent::TransmitTimedOut);
        assert_eq!(machine.step(outcome), Some(rest()));
        assert_eq!(machine.payload().timeouts(), cycle);
        assert_eq!(machine.payload().readings(), &[reading(0)][..]);
        // The outcome is taken once: a second report of it is turned away.
        assert_eq!(machine.step(outcome), None);
        assert_eq!(machine.payload().timeouts(), cycle);
    }

    // A cycle that makes it in time clears the count.
    run_to_transmit(&mut machine);
    let outcome = machine.timing().transmit_outcome(12);
    assert_eq!(outcome, LoopEvent::Transmitted);
    machine.step(outcome).unwrap();
    assert_eq!(machine.payload().timeouts(), 0);
}

#[test]
fn transmit_outcome_at_the_bound() {
    let timing = LoopTiming::reference();
    assert_eq!(timing.transmit_outcome(0), LoopEvent::Transmitted);
    assert_eq!(timing.transmit_outcome(179), LoopEvent::Transmitted);
    assert_eq!(timing.transmit_outcome(180), LoopEvent::Transmitted);
    assert_eq!(timing.transmit_outcome(181), LoopEvent::TransmitTimedOut);
    assert_eq!(timing.transmit_outcome(u64::MAX), LoopEvent::TransmitTimedOut);
}

#[test]
fn failed_telemetry_write_halts() {
    let mut payload = Payload::new(2);
    payload.push(reading(5)).unwrap();
    let mut machine = entered(payload);
    assert_eq!(machine.step(LoopEvent::TelemetryFailed), Some(halt()));
    assert_eq!(machine.phase(), CyclePhase::Halted(LinkError::Transport));
    assert_eq!(machine.payload().readings(), &[reading(5)][..]);
}

#[test]
fn failed_signal_query_halts() {
    let mut machine = entered(Payload::new(2));
    machine.step(LoopEvent::TelemetryWritten).unwrap();
    assert_eq!(machine.step(LoopEvent::SignalFailed), Some(halt()));
    assert_eq!(machine.phase(), CyclePhase::Halted(LinkError::Transport));
}

#[test]
fn failed_transmit_halts_and_keeps_the_payload() {
    let mut payload = Payload::new(2);
    payload.push(reading(5)).unwrap();
    let mut machine = entered(payload);
    run_to_transmit(&mut machine);
    assert_eq!(machine.step(LoopEvent::TransmitFailed), Some(halt()));
    assert_eq!(machine.phase(), CyclePhase::Halted(LinkError::Transport));
    assert_eq!(machine.payload().readings(), &[reading(5)][..]);
    assert_eq!(machine.payload().timeouts(), 0);
}

#[test]
fn halted_loop_turns_everything_away() {
    let mut machine = entered(Payload::new(2));
    machine.step(LoopEvent::TelemetryFailed).unwrap();
    for event in ALL_EVENTS {
        assert_eq!(machine.step(event), None);
        assert_eq!(machine.phase(), CyclePhase::Halted(LinkError::Transport));
    }
}

#[test]
fn loop_events_out_of_turn_are_turned_away() {
    let mut machine = entered(Payload::new(2));
    for event in ALL_EVENTS {
        if event != LoopEvent::TelemetryWritten && event != LoopEvent::TelemetryFailed {
            assert_eq!(machine.step(event), None);
            assert_eq!(machine.phase(), CyclePhase::WritingTelemetry);
        }
    }
    machine.step(LoopEvent::TelemetryWritten).unwrap();
    for event in ALL_EVENTS {
        if event != LoopEvent::SignalReported(-101) && event != LoopEvent::SignalFailed {
            assert_eq!(machine.step(event), None);
            assert_eq!(machine.phase(), CyclePhase::QueryingSignal);
        }
    }
    machine.step(LoopEvent::SignalReported(-101)).unwrap();
    for event in [
        LoopEvent::Tick,
        LoopEvent::TelemetryWritten,
        LoopEvent::TelemetryFailed,
        LoopEvent::SignalReported(-101),
        LoopEvent::SignalFailed,
    ] {
        assert_eq!(machine.step(event), None);
        assert_eq!(machine.phase(), CyclePhase::Transmitting);
    }
    machine.step(LoopEvent::Transmitted).unwrap();
    for event in ALL_EVENTS {
        if event != LoopEvent::Tick {
            assert_eq!(machine.step(event), None);
            assert_eq!(machine.phase(), CyclePhase::AwaitingTick);
        }
    }
}

#[test]
fn record_fills_the_payload_and_then_refuses() {
    let mut machine = entered(Payload::new(2));
    assert_eq!(machine.record(reading(0)), Ok(()));
    assert_eq!(machine.record(reading(1)), Ok(()));
    assert_eq!(machine.record(reading(2)), Err(CapacityError { rejected: reading(2) }));
    assert_eq!(machine.payload().readings(), &[reading(0), reading(1)][..]);
    assert_eq!(machine.phase(), CyclePhase::WritingTelemetry);
}
