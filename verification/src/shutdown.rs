//! Shutdown coordination: interrupt debouncing and the graceful-versus-
//! forceful teardown decision, as a state machine over signal events.
//!
//! A host task owns the OS signal subscriptions; on each delivery it hands
//! the coordinator the signal kind and a monotonic timestamp, and performs
//! the returned action: warn, begin shutdown (graceful or forced), or exit
//! at once.

use vstd::prelude::*;

verus! {

/// Two interrupts this close together (in milliseconds) escalate to a
/// forced shutdown.
pub const DEBOUNCE_WINDOW_MS: u64 = 5000;

/// The kinds of shutdown trigger the coordinator listens for.
#[derive(Clone, Copy, Debug, PartialEq, Eq, Structural)]
pub enum SignalKind {
    /// A process interrupt request, debounced when confirm-exit is on.
    Interrupt,
    /// A process termination request: graceful at once.
    Terminate,
    /// A hangup: graceful at once.
    Hangup,
    /// An internally triggered shutdown: graceful at once.
    Internal,
}

/// The coordinator's lifecycle.
#[derive(Clone, Copy, Debug, PartialEq, Eq, Structural)]
pub enum ShutdownPhase {
    /// Serving; no trigger has fired.
    Running,
    /// A trigger fired; the host is draining or tearing down.
    Draining,
    /// Terminal: the process is to exit at once.
    Stopped,
}

/// What the host must do after handing the coordinator a signal.
#[derive(Clone, Copy, Debug, PartialEq, Eq, Structural)]
pub enum CoordinatorAction {
    /// Nothing; keep waiting.
    Ignore,
    /// Log that a second interrupt within the window will exit.
    PressAgainNotice,
    /// Invoke the shutdown handler with this graceful flag.
    BeginShutdown { graceful: bool },
    /// Exit the process immediately, draining or not.
    ExitImmediately,
}

/// The shutdown coordinator's state.
pub struct Coordinator {
    /// Whether a first interrupt only warns.
    pub confirm_exit: bool,
    /// When the last unconfirmed interrupt arrived.
    pub last_interrupt_ms: Option<u64>,
    pub phase: ShutdownPhase,
}

/// Whether a second interrupt at `now` confirms one at `last`: it came
/// later (a clock that moved backwards is treated as a fresh start) and
/// within the debounce window.
pub open spec fn within_window(last: u64, now: u64) -> bool {
    last <= now && now - last < DEBOUNCE_WINDOW_MS
}

/// The transition relation: what the coordinator becomes and what the host
/// must do, for a signal `kind` delivered at `now_ms`.
///
/// While running: termination, hangup and internal triggers begin a
/// graceful shutdown at once; an interrupt begins a forced shutdown at
/// once unless confirm-exit is on, in which case only a second interrupt
/// within the window does, and any other interrupt merely warns and starts
/// a fresh window. While draining, a further interrupt exits immediately
/// and everything else is ignored. Stopped is terminal.
pub open spec fn coordinator_step(c: Coordinator, kind: SignalKind, now_ms: u64) -> (
    Coordinator,
    CoordinatorAction,
) {
    match c.phase {
        ShutdownPhase::Stopped => (c, CoordinatorAction::Ignore),
        ShutdownPhase::Draining => match kind {
            SignalKind::Interrupt => (
                Coordinator { phase: ShutdownPhase::Stopped, ..c },
                CoordinatorAction::ExitImmediately,
            ),
            _ => (c, CoordinatorAction::Ignore),
        },
        ShutdownPhase::Running => match kind {
            SignalKind::Terminate | SignalKind::Hangup | SignalKind::Internal => (
                Coordinator { phase: ShutdownPhase::Draining, ..c },
                CoordinatorAction::BeginShutdown { graceful: true },
            ),
            SignalKind::Interrupt => {
                if !c.confirm_exit {
                    (
                        Coordinator { phase: ShutdownPhase::Draining, ..c },
                        CoordinatorAction::BeginShutdown { graceful: false },
                    )
                } else {
                    match c.last_interrupt_ms {
                        Some(last) if within_window(last, now_ms) => (
                            Coordinator { phase: ShutdownPhase::Draining, ..c },
                            CoordinatorAction::BeginShutdown { graceful: false },
                        ),
                        _ => (
                            Coordinator { last_interrupt_ms: Some(now_ms), ..c },
                            CoordinatorAction::PressAgainNotice,
                        ),
                    }
                }
            },
        },
    }
}

impl Coordinator {
    /// A fresh coordinator for a process that is serving.
    pub fn new(confirm_exit: bool) -> (c: Coordinator)
        ensures
            c.confirm_exit == confirm_exit,
            c.last_interrupt_ms is None,
            c.phase is Running,
    {
        Coordinator { confirm_exit, last_interrupt_ms: None, phase: ShutdownPhase::Running }
    }

    /// Feeds one signal delivery to the coordinator; `now_ms` is a
    /// monotonic timestamp in milliseconds.
    pub fn on_signal(&mut self, kind: SignalKind, now_ms: u64) -> (a: CoordinatorAction)
        ensures
            (*final(self), a) == coordinator_step(*old(self), kind, now_ms),
    {
        match self.phase {
            ShutdownPhase::Stopped => CoordinatorAction::Ignore,
            ShutdownPhase::Draining => match kind {
                SignalKind::Interrupt => {
                    self.phase = ShutdownPhase::Stopped;
                    CoordinatorAction::ExitImmediately
                },
                _ => CoordinatorAction::Ignore,
            },
            ShutdownPhase::Running => match kind {
                SignalKind::Terminate | SignalKind::Hangup | SignalKind::Internal => {
                    self.phase = ShutdownPhase::Draining;
                    CoordinatorAction::BeginShutdown { graceful: true }
                },
                SignalKind::Interrupt => {
                    if !self.confirm_exit {
                        self.phase = ShutdownPhase::Draining;
                        CoordinatorAction::BeginShutdown { graceful: false }
                    } else {
                        let confirmed = match self.last_interrupt_ms {
                            Some(last) => last <= now_ms && now_ms - last < DEBOUNCE_WINDOW_MS,
                            None => false,
                        };
                        if confirmed {
                            self.phase = ShutdownPhase::Draining;
                            CoordinatorAction::BeginShutdown { graceful: false }
                        } else {
                            self.last_interrupt_ms = Some(now_ms);
                            CoordinatorAction::PressAgainNotice
                        }
                    }
                },
            },
        }
    }
}

/// The shutdown handler is invoked at most once: no signal delivered after
/// the coordinator has left `Running` begins another shutdown.
pub proof fn lemma_shutdown_begins_at_most_once(c: Coordinator, kind: SignalKind, now_ms: u64)
    requires
        !(c.phase is Running),
    ensures
        !(coordinator_step(c, kind, now_ms).1 is BeginShutdown),
        !(coordinator_step(c, kind, now_ms).0.phase is Running),
{
}

/// Termination-, hangup- and internally-triggered shutdowns are graceful on
/// first receipt, with no debounce.
pub proof fn lemma_graceful_signals(c: Coordinator, kind: SignalKind, now_ms: u64)
    requires
        c.phase is Running,
        kind is Terminate || kind is Hangup || kind is Internal,
    ensures
        coordinator_step(c, kind, now_ms).1 == (CoordinatorAction::BeginShutdown {
            graceful: true,
        }),
        coordinator_step(c, kind, now_ms).0.phase is Draining,
{
}

/// With confirm-exit off, the very first interrupt begins a forced
/// shutdown.
pub proof fn lemma_interrupt_without_confirm(c: Coordinator, now_ms: u64)
    requires
        c.phase is Running,
        !c.confirm_exit,
    ensures
        coordinator_step(c, SignalKind::Interrupt, now_ms).1
            == (CoordinatorAction::BeginShutdown { graceful: false }),
{
}

/// The debounce law: with confirm-exit on and no interrupt pending, a first
/// interrupt only warns; a second within the window begins a forced
/// shutdown; a second at or past the window is a fresh first occurrence and
/// warns again.
pub proof fn lemma_interrupt_debounce(c: Coordinator, t1: u64, t2: u64)
    requires
        c.phase is Running,
        c.confirm_exit,
        c.last_interrupt_ms is None,
        t1 <= t2,
    ensures
        coordinator_step(c, SignalKind::Interrupt, t1).1 is PressAgainNotice,
        ({
            let c1 = coordinator_step(c, SignalKind::Interrupt, t1).0;
            let (c2, a2) = coordinator_step(c1, SignalKind::Interrupt, t2);
            &&& (t2 - t1 < DEBOUNCE_WINDOW_MS ==> a2 == (CoordinatorAction::BeginShutdown {
                graceful: false,
            }) && c2.phase is Draining)
            &&& (t2 - t1 >= DEBOUNCE_WINDOW_MS ==> a2 is PressAgainNotice
                && c2.last_interrupt_ms == Some(t2) && c2.phase is Running)
        }),
{
}

/// A further interrupt while the host is draining exits the process
/// immediately, whether or not the drain completes.
pub proof fn lemma_interrupt_mid_drain(c: Coordinator, now_ms: u64)
    requires
        c.phase is Draining,
    ensures
        coordinator_step(c, SignalKind::Interrupt, now_ms) == (
            Coordinator { phase: ShutdownPhase::Stopped, ..c },
            CoordinatorAction::ExitImmediately,
        ),
{
}

} // verus!
