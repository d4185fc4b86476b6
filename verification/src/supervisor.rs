//! The shutdown supervisor: it starts the click loop, waits as long as the run
//! budget allows, then requests the stop and waits for the loop to finish.
//!
//! Like the click loop it is a state machine that names the next action
//! ([`Supervisor::pending`]) and takes in its outcome ([`Supervisor::advance`]).

use vstd::prelude::*;
use crate::budget::RunBudget;
use crate::click::CLICK_DELAY_MS;

verus! {

/// Length of one tick of a bounded wait, in milliseconds: the budget counts seconds.
pub const TICK_MS: u64 = 1000;

/// Where the supervisor stands: each phase waits for the outcome of one action.
#[derive(Clone, Copy, Debug, PartialEq, Eq)]
pub enum SupervisorPhase {
    Starting,
    Polling,
    Sleeping,
    Stopping,
    Joining,
    Joined,
}

/// What the driver is asked to do next.
#[derive(Clone, Copy, Debug, PartialEq, Eq)]
pub enum SupervisorAction {
    /// Start the click loop as a unit of its own.
    StartClickLoop,
    /// Read the cancellation signal.
    ReadSignal,
    /// Suspend for this many milliseconds.
    Sleep(u64),
    /// Set the cancellation signal to "stop".
    RequestStop,
    /// Wait until the click loop's unit has finished.
    Join,
    /// Let the process end.
    Exit,
}

/// What came of the action that was pending.
#[derive(Clone, Copy, Debug, PartialEq, Eq)]
pub enum SupervisorEvent {
    /// The click loop was started, a sleep is over, or the stop was requested.
    Done,
    /// The cancellation signal was read: `true` for "running".
    Signal(bool),
    /// The wait for the click loop's unit is over: `true` if the unit ended
    /// in good order. A failed wait is not escalated.
    JoinEnded(bool),
}

/// The three stages that the system as a whole goes through, in this order.
#[derive(Clone, Copy, Debug, PartialEq, Eq)]
pub enum SystemStage {
    /// Clicking is allowed.
    Running,
    /// The wait is over: the stop is being requested and the loop is being waited for.
    Stopping,
    /// The click loop's unit has finished: the process may end.
    Joined,
}

/// The state of a supervisor as plain data.
pub struct SupervisorState {
    pub phase: SupervisorPhase,
    /// Ticks left of a bounded wait; `None` for an unbounded one.
    pub remaining: Option<nat>,
}

/// The state from which a supervisor with the budget `budget` starts.
pub open spec fn supervisor_init(budget: RunBudget) -> SupervisorState {
    SupervisorState { phase: SupervisorPhase::Starting, remaining: budget.limit() }
}

/// The state `s` moved on to `phase`.
pub open spec fn supervisor_goto(s: SupervisorState, phase: SupervisorPhase) -> SupervisorState {
    SupervisorState { phase, ..s }
}

/// The action that a supervisor in state `s` waits for. A bounded wait
/// sleeps by the second; an unbounded one polls at the click cadence.
pub open spec fn supervisor_pending(s: SupervisorState) -> SupervisorAction {
    match s.phase {
        SupervisorPhase::Starting => SupervisorAction::StartClickLoop,
        SupervisorPhase::Polling => SupervisorAction::ReadSignal,
        SupervisorPhase::Sleeping => match s.remaining {
            Some(_) => SupervisorAction::Sleep(TICK_MS),
            None => SupervisorAction::Sleep(CLICK_DELAY_MS),
        },
        SupervisorPhase::Stopping => SupervisorAction::RequestStop,
        SupervisorPhase::Joining => SupervisorAction::Join,
        SupervisorPhase::Joined => SupervisorAction::Exit,
    }
}

/// The stage of the whole system that a supervisor in `phase` stands for.
pub open spec fn system_stage(phase: SupervisorPhase) -> SystemStage {
    match phase {
        SupervisorPhase::Starting | SupervisorPhase::Polling | SupervisorPhase::Sleeping =>
            SystemStage::Running,
        SupervisorPhase::Stopping | SupervisorPhase::Joining => SystemStage::Stopping,
        SupervisorPhase::Joined => SystemStage::Joined,
    }
}

/// The transition function of the supervisor: the state that follows `s` on
/// event `e`, or `None` where `e` does not answer the pending action.
///
/// The wait ends as soon as the signal is read as "stop". A bounded wait
/// also ends when its last tick is over, without another read of the signal.
/// However the wait ends, the stop is requested next, then the click loop is
/// waited for, and the outcome of that wait is not looked at.
pub open spec fn supervisor_next(s: SupervisorState, e: SupervisorEvent) -> Option<
    SupervisorState,
> {
    match (s.phase, e) {
        (SupervisorPhase::Starting, SupervisorEvent::Done) => Some(
            supervisor_goto(s, SupervisorPhase::Polling),
        ),
        (SupervisorPhase::Polling, SupervisorEvent::Signal(running)) => if running {
            Some(supervisor_goto(s, SupervisorPhase::Sleeping))
        } else {
            Some(supervisor_goto(s, SupervisorPhase::Stopping))
        },
        (SupervisorPhase::Sleeping, SupervisorEvent::Done) => match s.remaining {
            None => Some(supervisor_goto(s, SupervisorPhase::Polling)),
            Some(ticks) => if ticks > 1 {
                Some(
                    SupervisorState {
                        phase: SupervisorPhase::Polling,
                        remaining: Some((ticks - 1) as nat),
                    },
                )
            } else {
                Some(SupervisorState { phase: SupervisorPhase::Stopping, remaining: Some(0) })
            },
        },
        (SupervisorPhase::Stopping, SupervisorEvent::Done) => Some(
            supervisor_goto(s, SupervisorPhase::Joining),
        ),
        (SupervisorPhase::Joining, SupervisorEvent::JoinEnded(_)) => Some(
            supervisor_goto(s, SupervisorPhase::Joined),
        ),
        _ => None,
    }
}

/// The supervisor's state machine.
pub struct Supervisor {
    phase: SupervisorPhase,
    remaining: Option<u64>,
}

impl View for Supervisor {
    type V = SupervisorState;

    closed spec fn view(&self) -> SupervisorState {
        SupervisorState {
            phase: self.phase,
            remaining: match self.remaining {
                Some(ticks) => Some(ticks as nat),
                None => None,
            },
        }
    }
}

impl Supervisor {
    /// A supervisor for a run with the budget `budget`. It has done nothing
    /// yet: the first thing it asks for is the start of the click loop.
    pub fn new(budget: RunBudget) -> (machine: Supervisor)
        ensures
            machine@ == supervisor_init(budget),
    {
        let remaining = match budget.seconds {
            Some(n) => if n > 0 {
                Some(n)
            } else {
                None
            },
            None => None,
        };
        Supervisor { phase: SupervisorPhase::Starting, remaining }
    }

    /// The phase the supervisor is in.
    pub fn phase(&self) -> (phase: SupervisorPhase)
        ensures
            phase == self@.phase,
    {
        self.phase
    }

    /// The ticks left of a bounded wait; `None` for an unbounded one.
    pub fn remaining(&self) -> (remaining: Option<u64>)
        ensures
            match remaining {
                Some(ticks) => self@.remaining == Some(ticks as nat),
                None => self@.remaining is None,
            },
    {
        self.remaining
    }

    /// The stage of the whole system.
    pub fn stage(&self) -> (stage: SystemStage)
        ensures
            stage == system_stage(self@.phase),
    {
        match self.phase {
            SupervisorPhase::Starting | SupervisorPhase::Polling | SupervisorPhase::Sleeping => {
                SystemStage::Running
            },
            SupervisorPhase::Stopping | SupervisorPhase::Joining => SystemStage::Stopping,
            SupervisorPhase::Joined => SystemStage::Joined,
        }
    }

    /// The action that the driver is to perform next.
    pub fn pending(&self) -> (action: SupervisorAction)
        ensures
            action == supervisor_pending(self@),
    {
        match self.phase {
            SupervisorPhase::Starting => SupervisorAction::StartClickLoop,
            SupervisorPhase::Polling => SupervisorAction::ReadSignal,
            SupervisorPhase::Sleeping => match self.remaining {
                Some(_) => SupervisorAction::Sleep(TICK_MS),
                None => SupervisorAction::Sleep(CLICK_DELAY_MS),
            },
            SupervisorPhase::Stopping => SupervisorAction::RequestStop,
            SupervisorPhase::Joining => SupervisorAction::Join,
            SupervisorPhase::Joined => SupervisorAction::Exit,
        }
    }

    /// Takes in the outcome of the pending action and moves on.
    ///
    /// Returns `true` where the event answers the pending action; the machine
    /// then moves as [`supervisor_next`] says. Any other event is turned down
    /// with `false` and changes nothing.
    pub fn advance(&mut self, event: SupervisorEvent) -> (accepted: bool)
        ensures
            accepted == supervisor_next(old(self)@, event).is_some(),
            accepted ==> supervisor_next(old(self)@, event) == Some(final(self)@),
            !accepted ==> final(self)@ == old(self)@,
    {
        match (self.phase, event) {
            (SupervisorPhase::Starting, SupervisorEvent::Done) => {
                self.phase = SupervisorPhase::Polling;
            },
            (SupervisorPhase::Polling, SupervisorEvent::Signal(running)) => {
                if running {
                    self.phase = SupervisorPhase::Sleeping;
                } else {
                    self.phase = SupervisorPhase::Stopping;
                }
            },
            (SupervisorPhase::Sleeping, SupervisorEvent::Done) => {
                match self.remaining {
                    None => {
                        self.phase = SupervisorPhase::Polling;
                    },
                    Some(ticks) => {
                        if ticks > 1 {
                            self.remaining = Some(ticks - 1);
                            self.phase = SupervisorPhase::Polling;
                        } else {
                            self.remaining = Some(0);
                            self.phase = SupervisorPhase::Stopping;
                        }
                    },
                }
            },
            (SupervisorPhase::Stopping, SupervisorEvent::Done) => {
                self.phase = SupervisorPhase::Joining;
            },
            (SupervisorPhase::Joining, SupervisorEvent::JoinEnded(_)) => {
                self.phase = SupervisorPhase::Joined;
            },
            _ => {
                return false;
            },
        }
        true
    }
}

} // verus!
