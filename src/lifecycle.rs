use vstd::prelude::*;

verus! {

/// The phases of the server, in the order they are passed through.
#[derive(Clone, Copy, Debug, PartialEq, Eq, Structural)]
pub enum Phase {
    Starting,
    Serving,
    Draining,
    Stopped,
}

/// What the serving loop reports to the coordinator.
#[derive(Clone, Copy, Debug, PartialEq, Eq, Structural)]
pub enum Event {
    /// The listen address was bound.
    Bound,
    /// The listen address could not be bound.
    BindFailed,
    /// A new connection arrived.
    Connection,
    /// A request in flight has been answered.
    RequestDone,
    /// The operator asked the process to stop.
    Interrupt,
}

/// What the coordinator tells the serving loop to do.
#[derive(Clone, Copy, Debug, PartialEq, Eq, Structural)]
pub enum Action {
    StartAccepting,
    ExitFailure,
    Serve,
    Refuse,
    StopAccepting,
    ExitClean,
    Nothing,
}

/// The coordinator's state: its phase and the number of requests in flight.
#[derive(Clone, Copy, Debug, PartialEq, Eq, Structural)]
pub struct Lifecycle {
    pub phase: Phase,
    pub in_flight: u64,
}

pub open spec fn phase_rank(p: Phase) -> nat {
    match p {
        Phase::Starting => 0,
        Phase::Serving => 1,
        Phase::Draining => 2,
        Phase::Stopped => 3,
    }
}

/// The next state and the action for an event.
pub open spec fn step_spec(l: Lifecycle, e: Event) -> (Lifecycle, Action) {
    let n = l.in_flight;
    match (l.phase, e) {
        (Phase::Starting, Event::Bound) => (Lifecycle { phase: Phase::Serving, in_flight: 0 }, Action::StartAccepting),
        (Phase::Starting, Event::BindFailed) => (Lifecycle { phase: Phase::Stopped, in_flight: 0 }, Action::ExitFailure),
        (Phase::Serving, Event::Connection) => if n < u64::MAX {
            (Lifecycle { phase: Phase::Serving, in_flight: (n + 1) as u64 }, Action::Serve)
        } else {
            (l, Action::Refuse)
        },
        (Phase::Serving, Event::RequestDone) => (
            Lifecycle { phase: Phase::Serving, in_flight: if n > 0 { (n - 1) as u64 } else { 0 } },
            Action::Nothing,
        ),
        (Phase::Serving, Event::Interrupt) => if n == 0 {
            (Lifecycle { phase: Phase::Stopped, in_flight: 0 }, Action::ExitClean)
        } else {
            (Lifecycle { phase: Phase::Draining, in_flight: n }, Action::StopAccepting)
        },
        (Phase::Draining, Event::RequestDone) => if n <= 1 {
            (Lifecycle { phase: Phase::Stopped, in_flight: 0 }, Action::ExitClean)
        } else {
            (Lifecycle { phase: Phase::Draining, in_flight: (n - 1) as u64 }, Action::Nothing)
        },
        (_, Event::Connection) => (l, Action::Refuse),
        _ => (l, Action::Nothing),
    }
}

impl Lifecycle {
    /// A coordinator that has not bound its address yet.
    pub fn new() -> (r: Lifecycle)
        ensures
            r == (Lifecycle { phase: Phase::Starting, in_flight: 0 }),
    {
        Lifecycle { phase: Phase::Starting, in_flight: 0 }
    }

    /// Applies one event and says what to do about it.
    pub fn step(&mut self, e: Event) -> (a: Action)
        ensures
            (*final(self), a) == step_spec(*old(self), e),
            phase_rank(final(self).phase) >= phase_rank(old(self).phase),
    {
        let n = self.in_flight;
        let (next, action) = match (self.phase, e) {
            (Phase::Starting, Event::Bound) => (Lifecycle { phase: Phase::Serving, in_flight: 0 }, Action::StartAccepting),
            (Phase::Starting, Event::BindFailed) => (Lifecycle { phase: Phase::Stopped, in_flight: 0 }, Action::ExitFailure),
            (Phase::Serving, Event::Connection) => if n < u64::MAX {
                (Lifecycle { phase: Phase::Serving, in_flight: n + 1 }, Action::Serve)
            } else {
                (*self, Action::Refuse)
            },
            (Phase::Serving, Event::RequestDone) => (
                Lifecycle { phase: Phase::Serving, in_flight: if n > 0 { n - 1 } else { 0 } },
                Action::Nothing,
            ),
            (Phase::Serving, Event::Interrupt) => if n == 0 {
                (Lifecycle { phase: Phase::Stopped, in_flight: 0 }, Action::ExitClean)
            } else {
                (Lifecycle { phase: Phase::Draining, in_flight: n }, Action::StopAccepting)
            },
            (Phase::Draining, Event::RequestDone) => if n <= 1 {
                (Lifecycle { phase: Phase::Stopped, in_flight: 0 }, Action::ExitClean)
            } else {
                (Lifecycle { phase: Phase::Draining, in_flight: n - 1 }, Action::Nothing)
            },
            (_, Event::Connection) => (*self, Action::Refuse),
            _ => (*self, Action::Nothing),
        };
        *self = next;
        action
    }
}

/// Once an interrupt has been received, nothing new is accepted: while draining or
/// stopped, a connection is refused and a further interrupt changes nothing.
pub proof fn no_work_accepted_after_interrupt(l: Lifecycle)
    requires
        l.phase == Phase::Draining || l.phase == Phase::Stopped,
    ensures
        step_spec(l, Event::Connection) == (l, Action::Refuse),
        step_spec(l, Event::Interrupt) == (l, Action::Nothing),
        phase_rank(step_spec(l, Event::RequestDone).0.phase) >= 2,
{
}

/// A request in flight when the interrupt comes is still answered: draining keeps
/// the process up until the count of requests in flight reaches zero.
pub proof fn drain_waits_for_in_flight(l: Lifecycle)
    requires
        l.phase == Phase::Serving,
        l.in_flight > 0,
    ensures
        step_spec(l, Event::Interrupt).0 == (Lifecycle { phase: Phase::Draining, in_flight: l.in_flight }),
        step_spec(l, Event::Interrupt).1 == Action::StopAccepting,
        l.in_flight > 1 ==> step_spec(step_spec(l, Event::Interrupt).0, Event::RequestDone).0.phase
            == Phase::Draining,
        l.in_flight == 1 ==> step_spec(step_spec(l, Event::Interrupt).0, Event::RequestDone)
            == (Lifecycle { phase: Phase::Stopped, in_flight: 0 }, Action::ExitClean),
{
}

} // verus!
