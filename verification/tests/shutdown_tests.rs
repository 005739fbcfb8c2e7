use zy::shutdown::Coordinator;
use zy::shutdown::CoordinatorAction;
use zy::shutdown::SignalKind;

#[test]
fn confirmed_interrupts_two_seconds_apart_force_shutdown() {
    let mut c = Coordinator::new(true);
    assert_eq!(c.on_signal(SignalKind::Interrupt, 1_000), CoordinatorAction::PressAgainNotice);
    assert_eq!(
        c.on_signal(SignalKind::Interrupt, 3_000),
        CoordinatorAction::BeginShutdown { graceful: false }
    );
}

#[test]
fn interrupts_ten_seconds_apart_stay_fresh() {
    let mut c = Coordinator::new(true);
    assert_eq!(c.on_signal(SignalKind::Interrupt, 1_000), CoordinatorAction::PressAgainNotice);
    assert_eq!(c.on_signal(SignalKind::Interrupt, 11_000), CoordinatorAction::PressAgainNotice);
    // the second interrupt opened a fresh window; a third inside it confirms
    assert_eq!(
        c.on_signal(SignalKind::Interrupt, 12_000),
        CoordinatorAction::BeginShutdown { graceful: false }
    );
}

#[test]
fn boundary_of_the_window_is_a_fresh_occurrence() {
    let mut c = Coordinator::new(true);
    assert_eq!(c.on_signal(SignalKind::Interrupt, 0), CoordinatorAction::PressAgainNotice);
    assert_eq!(c.on_signal(SignalKind::Interrupt, 5_000), CoordinatorAction::PressAgainNotice);
}

#[test]
fn without_confirm_the_first_interrupt_forces_shutdown() {
    let mut c = Coordinator::new(false);
    assert_eq!(
        c.on_signal(SignalKind::Interrupt, 1_000),
        CoordinatorAction::BeginShutdown { graceful: false }
    );
}

#[test]
fn termination_is_graceful_at_once() {
    let mut c = Coordinator::new(true);
    assert_eq!(
        c.on_signal(SignalKind::Terminate, 1_000),
        CoordinatorAction::BeginShutdown { graceful: true }
    );
}

#[test]
fn hangup_is_graceful_at_once() {
    let mut c = Coordinator::new(true);
    assert_eq!(
        c.on_signal(SignalKind::Hangup, 1_000),
        CoordinatorAction::BeginShutdown { graceful: true }
    );
}

#[test]
fn internal_trigger_is_graceful_at_once() {
    let mut c = Coordinator::new(false);
    assert_eq!(
        c.on_signal(SignalKind::Internal, 1_000),
        CoordinatorAction::BeginShutdown { graceful: true }
    );
}

#[test]
fn interrupt_mid_drain_exits_immediately() {
    let mut c = Coordinator::new(false);
    assert_eq!(
        c.on_signal(SignalKind::Terminate, 1_000),
        CoordinatorAction::BeginShutdown { graceful: true }
    );
    assert_eq!(c.on_signal(SignalKind::Interrupt, 2_000), CoordinatorAction::ExitImmediately);
}

#[test]
fn other_signals_mid_drain_are_ignored() {
    let mut c = Coordinator::new(false);
    assert_eq!(
        c.on_signal(SignalKind::Terminate, 1_000),
        CoordinatorAction::BeginShutdown { graceful: true }
    );
    assert_eq!(c.on_signal(SignalKind::Terminate, 2_000), CoordinatorAction::Ignore);
    assert_eq!(c.on_signal(SignalKind::Hangup, 3_000), CoordinatorAction::Ignore);
}

#[test]
fn stopped_is_terminal() {
    let mut c = Coordinator::new(false);
    c.on_signal(SignalKind::Terminate, 1_000);
    c.on_signal(SignalKind::Interrupt, 2_000);
    assert_eq!(c.on_signal(SignalKind::Interrupt, 3_000), CoordinatorAction::Ignore);
    assert_eq!(c.on_signal(SignalKind::Terminate, 4_000), CoordinatorAction::Ignore);
}

#[test]
fn a_clock_step_backwards_is_a_fresh_occurrence() {
    let mut c = Coordinator::new(true);
    assert_eq!(c.on_signal(SignalKind::Interrupt, 10_000), CoordinatorAction::PressAgainNotice);
    assert_eq!(c.on_signal(SignalKind::Interrupt, 9_000), CoordinatorAction::PressAgainNotice);
}
