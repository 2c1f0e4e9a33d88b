//! The refresh schedule: one full refresh before anything is served, then a
//! refresh on every tick, one cycle at a time, until cancelled.

use vstd::prelude::*;

verus! {

/// Seconds between the starts of two refresh cycles.
pub const REFRESH_PERIOD_SECS: u64 = 5;

/// Seconds one request to an endpoint may take before it counts as failed.
pub const REQUEST_TIMEOUT_SECS: u64 = 4;

/// Where the schedule stands.
#[derive(Clone, Copy, Debug, PartialEq, Eq, Structural)]
pub enum SchedulerState {
    /// The first refresh of all classes is running; nothing is served yet.
    Initializing,
    /// Serving, and waiting for the next tick.
    Idle,
    /// Serving, with a refresh cycle in flight.
    Refreshing,
    /// Cancelled; no further cycle starts.
    Stopped,
}

/// What happened.
#[derive(Clone, Copy, Debug, PartialEq, Eq, Structural)]
pub enum SchedulerEvent {
    /// The refresh cycle in flight has finished.
    CycleFinished,
    /// The period has elapsed.
    Tick,
    /// The schedule is to stop.
    Cancel,
}

/// What to do next.
#[derive(Clone, Copy, Debug, PartialEq, Eq, Structural)]
pub enum SchedulerAction {
    /// Start a refresh cycle of all three classes.
    RefreshAll,
    /// Nothing to start; wait for the next event.
    Wait,
    /// Stop for good.
    Halt,
}

/// The next state and the action after `event` in state `state`: a tick
/// starts a cycle only when none is in flight, so an overrunning cycle delays
/// the next one instead of overlapping it.
pub open spec fn transition(state: SchedulerState, event: SchedulerEvent) -> (
    SchedulerState,
    SchedulerAction,
) {
    match (state, event) {
        (SchedulerState::Stopped, _) => (SchedulerState::Stopped, SchedulerAction::Halt),
        (_, SchedulerEvent::Cancel) => (SchedulerState::Stopped, SchedulerAction::Halt),
        (SchedulerState::Idle, SchedulerEvent::Tick) => (
            SchedulerState::Refreshing,
            SchedulerAction::RefreshAll,
        ),
        (SchedulerState::Initializing, SchedulerEvent::CycleFinished) => (
            SchedulerState::Idle,
            SchedulerAction::Wait,
        ),
        (SchedulerState::Refreshing, SchedulerEvent::CycleFinished) => (
            SchedulerState::Idle,
            SchedulerAction::Wait,
        ),
        (s, _) => (s, SchedulerAction::Wait),
    }
}

/// The refresh schedule.
#[derive(Debug)]
pub struct Scheduler {
    state: SchedulerState,
}

impl Scheduler {
    /// The state of the schedule.
    pub closed spec fn current(&self) -> SchedulerState {
        self.state
    }

    /// A schedule that starts with the first refresh of all classes; the
    /// caller runs that refresh and then reports `CycleFinished`.
    pub fn new() -> (r: (Scheduler, SchedulerAction))
        ensures
            r.0.current() == SchedulerState::Initializing,
            r.1 == SchedulerAction::RefreshAll,
    {
        (Scheduler { state: SchedulerState::Initializing }, SchedulerAction::RefreshAll)
    }

    /// The state of the schedule.
    pub fn state(&self) -> (r: SchedulerState)
        ensures
            r == self.current(),
    {
        self.state
    }

    /// Heights may be served: the first refresh has finished and the schedule
    /// has not been cancelled.
    pub fn serving(&self) -> (r: bool)
        ensures
            r == (self.current() == SchedulerState::Idle || self.current()
                == SchedulerState::Refreshing),
    {
        match self.state {
            SchedulerState::Idle | SchedulerState::Refreshing => true,
            _ => false,
        }
    }

    /// Takes `event` and says what to do.
    pub fn on_event(&mut self, event: SchedulerEvent) -> (r: SchedulerAction)
        ensures
            (final(self).current(), r) == transition(old(self).current(), event),
    {
        let (next, action) = match (self.state, event) {
            (SchedulerState::Stopped, _) => (SchedulerState::Stopped, SchedulerAction::Halt),
            (_, SchedulerEvent::Cancel) => (SchedulerState::Stopped, SchedulerAction::Halt),
            (SchedulerState::Idle, SchedulerEvent::Tick) => (
                SchedulerState::Refreshing,
                SchedulerAction::RefreshAll,
            ),
            (SchedulerState::Initializing, SchedulerEvent::CycleFinished) => (
                SchedulerState::Idle,
                SchedulerAction::Wait,
            ),
            (SchedulerState::Refreshing, SchedulerEvent::CycleFinished) => (
                SchedulerState::Idle,
                SchedulerAction::Wait,
            ),
            (s, _) => (s, SchedulerAction::Wait),
        };
        self.state = next;
        action
    }
}

/// Nothing is served before the first refresh has finished: from the start
/// state, the schedule serves only after a `CycleFinished`, and once stopped
/// it stays stopped.
pub proof fn lemma_serving_follows_first_refresh(event: SchedulerEvent)
    ensures
        transition(SchedulerState::Initializing, event).0 == SchedulerState::Idle <==> event
            == SchedulerEvent::CycleFinished,
        transition(SchedulerState::Initializing, event).0 != SchedulerState::Refreshing,
        transition(SchedulerState::Stopped, event).0 == SchedulerState::Stopped,
{
}

} // verus!
