use propane_monitor_embassy::bridge::{
    startup_plan, HandlerStep, Install, InterruptLine, Priority,
};

#[test]
fn application_line_runs_at_p4() {
    assert_eq!(InterruptLine::ApplicationEvent.priority(), Priority::P4);
}

#[test]
fn ipc_line_runs_at_p0() {
    assert_eq!(InterruptLine::Ipc.priority(), Priority::P0);
}

#[test]
fn levels_count_up_from_zero() {
    let all = [
        Priority::P0,
        Priority::P1,
        Priority::P2,
        Priority::P3,
        Priority::P4,
        Priority::P5,
        Priority::P6,
        Priority::P7,
    ];
    for (index, priority) in all.iter().enumerate() {
        assert_eq!(priority.level() as usize, index);
    }
}

#[test]
fn lower_level_preempts_higher() {
    assert!(Priority::P0.preempts(Priority::P4));
    assert!(!Priority::P4.preempts(Priority::P0));
    assert!(!Priority::P4.preempts(Priority::P4));
    assert!(Priority::P6.preempts(Priority::P7));
}

#[test]
fn ipc_preempts_application_line() {
    let ipc = InterruptLine::Ipc.priority();
    let application = InterruptLine::ApplicationEvent.priority();
    assert!(ipc.preempts(application));
    assert!(!application.preempts(ipc));
}

#[test]
fn handler_forwards_then_wakes() {
    assert_eq!(
        InterruptLine::Ipc.handler(),
        [HandlerStep::Forward(InterruptLine::Ipc), HandlerStep::Wake]
    );
    assert_eq!(
        InterruptLine::ApplicationEvent.handler(),
        [HandlerStep::Forward(InterruptLine::ApplicationEvent), HandlerStep::Wake]
    );
}

#[test]
fn startup_installs_application_line_first() {
    assert_eq!(
        startup_plan(),
        [
            Install { line: InterruptLine::ApplicationEvent, priority: Priority::P4 },
            Install { line: InterruptLine::Ipc, priority: Priority::P0 },
        ]
    );
}
