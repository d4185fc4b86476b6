//! What holds of every run of the supervisor.
//!
//! As for the click loop, a run is any sequence of events offered to the
//! machine, and the actions it issues are the pending actions of the states
//! that its accepted events lead to.

use vstd::prelude::*;
use crate::budget::RunBudget;
use crate::supervisor::{
    supervisor_init, supervisor_next, supervisor_pending, system_stage, SupervisorAction,
    SupervisorEvent, SupervisorPhase, SupervisorState, SystemStage, TICK_MS,
};

verus! {

/// The state that the events `events`, offered in turn, lead to from `s`.
pub open spec fn supervisor_run(s: SupervisorState, events: Seq<SupervisorEvent>) -> SupervisorState
    decreases events.len(),
{
    if events.len() == 0 {
        s
    } else {
        let before = supervisor_run(s, events.drop_last());
        match supervisor_next(before, events.last()) {
            Some(after) => after,
            None => before,
        }
    }
}

/// The actions that the machine asks for in the course of that run, in order:
/// one for each event that it accepts.
pub open spec fn supervisor_issued(s: SupervisorState, events: Seq<SupervisorEvent>) -> Seq<
    SupervisorAction,
>
    decreases events.len(),
{
    if events.len() == 0 {
        Seq::empty()
    } else {
        let earlier = supervisor_issued(s, events.drop_last());
        match supervisor_next(supervisor_run(s, events.drop_last()), events.last()) {
            Some(after) => earlier.push(supervisor_pending(after)),
            None => earlier,
        }
    }
}

/// The time, in milliseconds, that the sleeps among `actions` add up to.
pub open spec fn slept_ms(actions: Seq<SupervisorAction>) -> nat
    decreases actions.len(),
{
    if actions.len() == 0 {
        0
    } else {
        slept_ms(actions.drop_last()) + match actions.last() {
            SupervisorAction::Sleep(ms) => ms as nat,
            _ => 0nat,
        }
    }
}

/// How often the action `a` occurs in `actions`.
pub open spec fn supervisor_count(actions: Seq<SupervisorAction>, a: SupervisorAction) -> nat
    decreases actions.len(),
{
    if actions.len() == 0 {
        0
    } else {
        supervisor_count(actions.drop_last(), a) + if actions.last() == a {
            1nat
        } else {
            0nat
        }
    }
}

proof fn lemma_slept_push(actions: Seq<SupervisorAction>, b: SupervisorAction)
    ensures
        slept_ms(actions.push(b)) == slept_ms(actions) + match b {
            SupervisorAction::Sleep(ms) => ms as nat,
            _ => 0nat,
        },
{
    assert(actions.push(b).drop_last() =~= actions);
}

proof fn lemma_count_push(actions: Seq<SupervisorAction>, b: SupervisorAction, a: SupervisorAction)
    ensures
        supervisor_count(actions.push(b), a) == supervisor_count(actions, a) + if b == a {
            1nat
        } else {
            0nat
        },
{
    assert(actions.push(b).drop_last() =~= actions);
}

/// A run goes on one event at a time: offering `e` after `events` takes the
/// step of [`supervisor_next`] from where `events` led, and issues the action
/// that is then pending if `e` was accepted.
pub proof fn lemma_supervisor_run_extends(
    s: SupervisorState,
    events: Seq<SupervisorEvent>,
    e: SupervisorEvent,
)
    ensures
        supervisor_run(s, events.push(e)) == match supervisor_next(supervisor_run(s, events), e) {
            Some(after) => after,
            None => supervisor_run(s, events),
        },
        supervisor_issued(s, events.push(e)) == match supervisor_next(
            supervisor_run(s, events),
            e,
        ) {
            Some(after) => supervisor_issued(s, events).push(supervisor_pending(after)),
            None => supervisor_issued(s, events),
        },
{
    assert(events.push(e).drop_last() =~= events);
}

/// Whether every reading of the signal among `events` is "running".
pub open spec fn signal_held_at_running(events: Seq<SupervisorEvent>) -> bool {
    forall|i: int|
        0 <= i < events.len() ==> (#[trigger] events[i] is Signal ==> events[i]
            == SupervisorEvent::Signal(true))
}

/// Whether every reading of the signal among `events` is "stop".
pub open spec fn signal_held_at_stop(events: Seq<SupervisorEvent>) -> bool {
    forall|i: int|
        0 <= i < events.len() ==> (#[trigger] events[i] is Signal ==> events[i]
            == SupervisorEvent::Signal(false))
}

/// The events of a wait that nothing cuts short, up to the end of its
/// `ticks`-th tick: the click loop is started, then for each tick the signal
/// is read as "running" and the sleep runs its course.
pub open spec fn uninterrupted_wait(ticks: nat) -> Seq<SupervisorEvent>
    decreases ticks,
{
    if ticks == 0 {
        seq![SupervisorEvent::Done]
    } else {
        uninterrupted_wait((ticks - 1) as nat).push(SupervisorEvent::Signal(true)).push(
            SupervisorEvent::Done,
        )
    }
}

/// The books of a bounded run of `n` seconds: the ticks left against the time slept.
spec fn wait_accounted(n: nat, s: SupervisorState, issued: Seq<SupervisorAction>) -> bool {
    &&& s.remaining matches Some(left)
    &&& left <= n
    &&& match s.phase {
        SupervisorPhase::Starting => left == n && slept_ms(issued) == 0,
        SupervisorPhase::Polling => left >= 1 && slept_ms(issued) == (n - left) * TICK_MS,
        SupervisorPhase::Sleeping => left >= 1 && slept_ms(issued) == (n - left + 1) * TICK_MS,
        _ => slept_ms(issued) <= n * TICK_MS,
    }
}

proof fn lemma_wait_accounted(budget: RunBudget, events: Seq<SupervisorEvent>)
    requires
        budget.limit() is Some,
    ensures
        wait_accounted(
            budget.limit()->Some_0,
            supervisor_run(supervisor_init(budget), events),
            supervisor_issued(supervisor_init(budget), events),
        ),
    decreases events.len(),
{
    let init = supervisor_init(budget);
    let n = budget.limit()->Some_0;
    if events.len() > 0 {
        lemma_wait_accounted(budget, events.drop_last());
        let before = supervisor_run(init, events.drop_last());
        let earlier = supervisor_issued(init, events.drop_last());
        match supervisor_next(before, events.last()) {
            Some(after) => {
                lemma_slept_push(earlier, supervisor_pending(after));
                assert(TICK_MS == 1000);
            },
            None => {},
        }
    } else {
        assert(supervisor_issued(init, events) =~= Seq::empty());
    }
}

/// A budget of `n` seconds bounds the wait: whatever the signal reads and
/// whatever events arrive, the supervisor never asks for more than `n`
/// seconds of sleep in all, and what it sleeps, it sleeps by the second.
pub proof fn lemma_bounded_wait_is_bounded(budget: RunBudget, events: Seq<SupervisorEvent>)
    requires
        budget.limit() is Some,
    ensures
        slept_ms(supervisor_issued(supervisor_init(budget), events)) <= budget.limit()->Some_0
            * TICK_MS,
{
    lemma_wait_accounted(budget, events);
    assert(TICK_MS == 1000);
}

/// A budget of `n` seconds runs out after exactly `n` ticks. While the signal
/// reads "running", the supervisor is still polling after each of the first
/// `n - 1` ticks; at the end of the `n`-th it asks for the stop, having slept
/// `n` seconds and not a tick more.
pub proof fn lemma_bounded_wait_runs_out(budget: RunBudget, ticks: nat)
    requires
        budget.limit() is Some,
        ticks <= budget.limit()->Some_0,
    ensures
        ({
            let n = budget.limit()->Some_0;
            let init = supervisor_init(budget);
            let s = supervisor_run(init, uninterrupted_wait(ticks));
            let issued = supervisor_issued(init, uninterrupted_wait(ticks));
            &&& slept_ms(issued) == ticks * TICK_MS
            &&& supervisor_count(issued, SupervisorAction::Sleep(TICK_MS)) == ticks
            &&& ticks < n ==> s == (SupervisorState {
                phase: SupervisorPhase::Polling,
                remaining: Some((n - ticks) as nat),
            })
            &&& ticks < n ==> supervisor_count(issued, SupervisorAction::RequestStop) == 0
            &&& ticks == n ==> s == (SupervisorState {
                phase: SupervisorPhase::Stopping,
                remaining: Some(0),
            })
            &&& ticks == n ==> supervisor_pending(s) == SupervisorAction::RequestStop
            &&& ticks == n ==> supervisor_count(issued, SupervisorAction::RequestStop) == 1
        }),
    decreases ticks,
{
    let n = budget.limit()->Some_0;
    let init = supervisor_init(budget);
    if ticks == 0 {
        let none = Seq::<SupervisorEvent>::empty();
        assert(uninterrupted_wait(0) =~= none.push(SupervisorEvent::Done));
        lemma_supervisor_run_extends(init, none, SupervisorEvent::Done);
        assert(supervisor_issued(init, none) =~= Seq::empty());
        let started = supervisor_issued(init, none);
        lemma_slept_push(started, SupervisorAction::ReadSignal);
        lemma_count_push(started, SupervisorAction::ReadSignal, SupervisorAction::Sleep(TICK_MS));
        lemma_count_push(started, SupervisorAction::ReadSignal, SupervisorAction::RequestStop);
    } else {
        let shorter = (ticks - 1) as nat;
        lemma_bounded_wait_runs_out(budget, shorter);
        let polled = uninterrupted_wait(shorter);
        let asleep = polled.push(SupervisorEvent::Signal(true));
        lemma_supervisor_run_extends(init, polled, SupervisorEvent::Signal(true));
        lemma_supervisor_run_extends(init, asleep, SupervisorEvent::Done);
        let before = supervisor_issued(init, polled);
        lemma_slept_push(before, SupervisorAction::Sleep(TICK_MS));
        lemma_count_push(before, SupervisorAction::Sleep(TICK_MS), SupervisorAction::Sleep(TICK_MS));
        lemma_count_push(before, SupervisorAction::Sleep(TICK_MS), SupervisorAction::RequestStop);
        let slept = before.push(SupervisorAction::Sleep(TICK_MS));
        let then = supervisor_pending(supervisor_run(init, uninterrupted_wait(ticks)));
        lemma_slept_push(slept, then);
        lemma_count_push(slept, then, SupervisorAction::Sleep(TICK_MS));
        lemma_count_push(slept, then, SupervisorAction::RequestStop);
        assert(TICK_MS == 1000);
    }
}

/// Without a budget the supervisor never ends the run of its own accord:
/// while the signal reads "running", the system is still in its running
/// stage after any number of events, and no stop has been asked for.
pub proof fn lemma_unbounded_wait_goes_on(budget: RunBudget, events: Seq<SupervisorEvent>)
    requires
        budget.limit() is None,
        signal_held_at_running(events),
    ensures
        system_stage(supervisor_run(supervisor_init(budget), events).phase)
            == SystemStage::Running,
        supervisor_run(supervisor_init(budget), events).remaining is None,
        supervisor_count(
            supervisor_issued(supervisor_init(budget), events),
            SupervisorAction::RequestStop,
        ) == 0,
    decreases events.len(),
{
    let init = supervisor_init(budget);
    if events.len() > 0 {
        let shorter = events.drop_last();
        assert forall|i: int| 0 <= i < shorter.len() && #[trigger] shorter[i] is Signal implies
            shorter[i] == SupervisorEvent::Signal(true) by {
            assert(shorter[i] == events[i]);
        }
        lemma_unbounded_wait_goes_on(budget, shorter);
        let e = events.last();
        assert(e is Signal ==> e == SupervisorEvent::Signal(true));
        match supervisor_next(supervisor_run(init, shorter), e) {
            Some(after) => {
                lemma_count_push(
                    supervisor_issued(init, shorter),
                    supervisor_pending(after),
                    SupervisorAction::RequestStop,
                );
            },
            None => {},
        }
    }
}

/// The most events that a supervisor in `phase` can still accept once the
/// signal reads "stop".
pub open spec fn supervisor_steps_left(phase: SupervisorPhase) -> nat {
    match phase {
        SupervisorPhase::Joined => 0,
        SupervisorPhase::Joining => 1,
        SupervisorPhase::Stopping => 2,
        SupervisorPhase::Polling => 3,
        SupervisorPhase::Sleeping => 4,
        SupervisorPhase::Starting => 4,
    }
}

/// Once the signal reads "stop", the wait is over at the next poll, bounded
/// or not: from whatever state, the supervisor asks for no further sleep, and
/// each event that it accepts brings it closer to the end, which is at most
/// four events away.
pub proof fn lemma_wait_ends_on_stop(s: SupervisorState, events: Seq<SupervisorEvent>)
    requires
        signal_held_at_stop(events),
    ensures
        ({
            let issued = supervisor_issued(s, events);
            let t = supervisor_run(s, events);
            &&& slept_ms(issued) == 0
            &&& issued.len() + supervisor_steps_left(t.phase) <= supervisor_steps_left(s.phase)
            &&& supervisor_steps_left(s.phase) <= 4
        }),
    decreases events.len(),
{
    if events.len() > 0 {
        let shorter = events.drop_last();
        assert forall|i: int| 0 <= i < shorter.len() && #[trigger] shorter[i] is Signal implies
            shorter[i] == SupervisorEvent::Signal(false) by {
            assert(shorter[i] == events[i]);
        }
        lemma_wait_ends_on_stop(s, shorter);
        let e = events.last();
        assert(e is Signal ==> e == SupervisorEvent::Signal(false));
        match supervisor_next(supervisor_run(s, shorter), e) {
            Some(after) => {
                lemma_slept_push(supervisor_issued(s, shorter), supervisor_pending(after));
            },
            None => {},
        }
    }
}

/// The place of a stage in the order of the stages.
pub open spec fn stage_rank(stage: SystemStage) -> nat {
    match stage {
        SystemStage::Running => 0,
        SystemStage::Stopping => 1,
        SystemStage::Joined => 2,
    }
}

/// The system only moves forward, from running to stopping to joined: no
/// event takes it back to an earlier stage, and the joined stage is reached
/// from the stopping stage alone, when the wait for the click loop is over.
pub proof fn lemma_stages_only_advance(s: SupervisorState, e: SupervisorEvent)
    ensures
        match supervisor_next(s, e) {
            Some(after) => {
                &&& stage_rank(system_stage(s.phase)) <= stage_rank(system_stage(after.phase))
                    <= stage_rank(system_stage(s.phase)) + 1
                &&& (after.phase is Joined ==> s.phase is Joining && e is JoinEnded)
            },
            None => true,
        },
{
}

/// What a run from the start has asked for by the phase it is in.
spec fn teardown_in_order(s: SupervisorState, issued: Seq<SupervisorAction>) -> bool {
    let stops = supervisor_count(issued, SupervisorAction::RequestStop);
    let joins = supervisor_count(issued, SupervisorAction::Join);
    let exits = supervisor_count(issued, SupervisorAction::Exit);
    match s.phase {
        SupervisorPhase::Starting | SupervisorPhase::Polling | SupervisorPhase::Sleeping => stops
            == 0 && joins == 0 && exits == 0,
        SupervisorPhase::Stopping => stops == 1 && joins == 0 && exits == 0,
        SupervisorPhase::Joining => stops == 1 && joins == 1 && exits == 0,
        SupervisorPhase::Joined => stops == 1 && joins == 1 && exits == 1,
    }
}

proof fn lemma_teardown(budget: RunBudget, events: Seq<SupervisorEvent>)
    ensures
        teardown_in_order(
            supervisor_run(supervisor_init(budget), events),
            supervisor_issued(supervisor_init(budget), events),
        ),
    decreases events.len(),
{
    let init = supervisor_init(budget);
    if events.len() > 0 {
        lemma_teardown(budget, events.drop_last());
        let earlier = supervisor_issued(init, events.drop_last());
        match supervisor_next(supervisor_run(init, events.drop_last()), events.last()) {
            Some(after) => {
                let b = supervisor_pending(after);
                lemma_count_push(earlier, b, SupervisorAction::RequestStop);
                lemma_count_push(earlier, b, SupervisorAction::Join);
                lemma_count_push(earlier, b, SupervisorAction::Exit);
            },
            None => {},
        }
    }
}

/// The teardown is unconditional and in order. However the wait ended, the
/// supervisor asks for the stop exactly once before it waits for the click
/// loop, and it lets the process end only after that wait is over.
pub proof fn lemma_teardown_is_ordered(budget: RunBudget, events: Seq<SupervisorEvent>)
    ensures
        ({
            let s = supervisor_run(supervisor_init(budget), events);
            let issued = supervisor_issued(supervisor_init(budget), events);
            let stops = supervisor_count(issued, SupervisorAction::RequestStop);
            let joins = supervisor_count(issued, SupervisorAction::Join);
            let exits = supervisor_count(issued, SupervisorAction::Exit);
            &&& exits <= joins <= stops <= 1
            &&& stops == 1 <==> system_stage(s.phase) != SystemStage::Running
            &&& exits == 1 <==> system_stage(s.phase) == SystemStage::Joined
        }),
{
    lemma_teardown(budget, events);
}

} // verus!
