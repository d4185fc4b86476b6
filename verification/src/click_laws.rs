//! What holds of every run of the click loop.
//!
//! A run is a sequence of events offered to the machine, whatever they are:
//! an event that does not answer the pending action is turned down and leaves
//! no trace. The actions that a run issues are the pending actions of the
//! states that its accepted events lead to.

use vstd::prelude::*;
use crate::click::{
    click_has_ended, click_init, click_next, click_outcome, click_pending,
    ClickAction, ClickEvent, ClickPhase, ClickState, CLICK_DELAY_MS,
};
use crate::movement::displaced;

verus! {

/// The state that the events `events`, offered in turn, lead to from `s`.
pub open spec fn click_run(s: ClickState, events: Seq<ClickEvent>) -> ClickState
    decreases events.len(),
{
    if events.len() == 0 {
        s
    } else {
        let before = click_run(s, events.drop_last());
        match click_next(before, events.last()) {
            Ok(after) => after,
            Err(_) => before,
        }
    }
}

/// The actions that the machine asks for in the course of that run, in order:
/// one for each event that it accepts.
pub open spec fn click_issued(s: ClickState, events: Seq<ClickEvent>) -> Seq<ClickAction>
    decreases events.len(),
{
    if events.len() == 0 {
        Seq::empty()
    } else {
        let earlier = click_issued(s, events.drop_last());
        match click_next(click_run(s, events.drop_last()), events.last()) {
            Ok(after) => earlier.push(click_pending(after)),
            Err(_) => earlier,
        }
    }
}

/// How often the action `a` occurs in `actions`.
pub open spec fn click_count(actions: Seq<ClickAction>, a: ClickAction) -> nat
    decreases actions.len(),
{
    if actions.len() == 0 {
        0
    } else {
        click_count(actions.drop_last(), a) + if actions.last() == a {
            1nat
        } else {
            0nat
        }
    }
}

/// A run goes on one event at a time: offering `e` after `events` takes the
/// step of [`click_next`] from where `events` led, and issues the action that
/// is then pending if `e` was accepted.
pub proof fn lemma_click_run_extends(s: ClickState, events: Seq<ClickEvent>, e: ClickEvent)
    ensures
        click_run(s, events.push(e)) == match click_next(click_run(s, events), e) {
            Ok(after) => after,
            Err(_) => click_run(s, events),
        },
        click_issued(s, events.push(e)) == match click_next(click_run(s, events), e) {
            Ok(after) => click_issued(s, events).push(click_pending(after)),
            Err(_) => click_issued(s, events),
        },
{
    assert(events.push(e).drop_last() =~= events);
}

proof fn lemma_count_push(actions: Seq<ClickAction>, b: ClickAction, a: ClickAction)
    ensures
        click_count(actions.push(b), a) == click_count(actions, a) + if b == a {
            1nat
        } else {
            0nat
        },
{
    assert(actions.push(b).drop_last() =~= actions);
}

/// Clicks of which the press has been asked for and the release has not.
spec fn releases_owed(phase: ClickPhase) -> nat {
    if phase is Pressing || phase is FlushingPress {
        1
    } else {
        0
    }
}

/// Pauses that a loop in `phase` owes to a click under way: one from the
/// moment the press is asked for until the pause is, none otherwise.
pub open spec fn pauses_owed(phase: ClickPhase) -> nat {
    if phase is Pressing || phase is FlushingPress || phase is Releasing
        || phase is FlushingRelease {
        1
    } else {
        0
    }
}

/// Flushes that the click under way still lacks.
spec fn flushes_owed(phase: ClickPhase) -> nat {
    if phase is Pressing {
        2
    } else if phase is FlushingPress || phase is Releasing {
        1
    } else {
        0
    }
}

/// The books of a run from the start: the tally against the actions issued.
spec fn ledger_balanced(s: ClickState, issued: Seq<ClickAction>) -> bool {
    &&& s.tally <= u64::MAX
    &&& s.tally >= pauses_owed(s.phase)
    &&& (s.phase is Connecting || s.phase is ResolvingRoot || s.phase is SamplingStart)
        ==> s.tally == 0
    &&& click_count(issued, ClickAction::Press) == s.tally
    &&& click_count(issued, ClickAction::Release) + releases_owed(s.phase) == s.tally
    &&& click_count(issued, ClickAction::Flush) + flushes_owed(s.phase) == 2 * s.tally
    &&& click_count(issued, ClickAction::Sleep(CLICK_DELAY_MS)) + pauses_owed(s.phase) == s.tally
}

proof fn lemma_ledger(events: Seq<ClickEvent>)
    ensures
        ledger_balanced(click_run(click_init(), events), click_issued(click_init(), events)),
    decreases events.len(),
{
    let init = click_init();
    if events.len() > 0 {
        lemma_ledger(events.drop_last());
        let before = click_run(init, events.drop_last());
        let earlier = click_issued(init, events.drop_last());
        match click_next(before, events.last()) {
            Ok(after) => {
                let b = click_pending(after);
                lemma_count_push(earlier, b, ClickAction::Press);
                lemma_count_push(earlier, b, ClickAction::Release);
                lemma_count_push(earlier, b, ClickAction::Flush);
                lemma_count_push(earlier, b, ClickAction::Sleep(CLICK_DELAY_MS));
            },
            Err(_) => {},
        }
    }
}

/// The tally is exactly the number of clicks made. At every point of a run
/// it equals the number of presses asked for. Once the loop has ended, that
/// is also the number of releases and of pauses, with two flushes to each
/// click; and the count that a successful loop reports is that number: the
/// click before the pointer check that ends the loop is counted, and no click
/// is counted that was not made.
pub proof fn lemma_tally_counts_clicks(events: Seq<ClickEvent>)
    ensures
        ({
            let s = click_run(click_init(), events);
            let issued = click_issued(click_init(), events);
            &&& click_count(issued, ClickAction::Press) == s.tally
            &&& click_has_ended(s.phase) ==> {
                &&& click_count(issued, ClickAction::Release) == s.tally
                &&& click_count(issued, ClickAction::Flush) == 2 * s.tally
                &&& click_count(issued, ClickAction::Sleep(CLICK_DELAY_MS)) == s.tally
            }
            &&& click_outcome(s) matches Some(Ok(n)) ==> {
                &&& n == click_count(issued, ClickAction::Press)
                &&& n == click_count(issued, ClickAction::Release)
            }
        }),
{
    lemma_ledger(events);
}

/// Whether every reading of the signal among `events` is "stop".
pub open spec fn signal_held_at_stop(events: Seq<ClickEvent>) -> bool {
    forall|i: int|
        0 <= i < events.len() ==> (#[trigger] events[i] is Signal ==> events[i]
            == ClickEvent::Signal(false))
}

/// Whether every reading of the signal among `events` is "running".
pub open spec fn signal_held_at_running(events: Seq<ClickEvent>) -> bool {
    forall|i: int|
        0 <= i < events.len() ==> (#[trigger] events[i] is Signal ==> events[i]
            == ClickEvent::Signal(true))
}

/// The most events that a loop in `phase` can still accept once the signal
/// reads "stop".
pub open spec fn click_steps_left(phase: ClickPhase) -> nat {
    match phase {
        ClickPhase::Finished => 0,
        ClickPhase::Stopping => 1,
        ClickPhase::Reporting => 2,
        ClickPhase::CheckingSignal => 3,
        ClickPhase::SamplingCurrent => 4,
        ClickPhase::Pausing => 5,
        ClickPhase::FlushingRelease => 6,
        ClickPhase::Releasing => 7,
        ClickPhase::FlushingPress => 8,
        ClickPhase::Pressing => 9,
        ClickPhase::SamplingStart => 4,
        ClickPhase::ResolvingRoot => 5,
        ClickPhase::Connecting => 6,
    }
}

/// Once the signal reads "stop", the loop ends promptly, from whatever state
/// it is in. It begins no further click; it asks for at most one more pause,
/// the one that belongs to a click already under way; and each event that it
/// accepts brings it closer to its end, which is at most nine events away.
pub proof fn lemma_stop_is_prompt(s: ClickState, events: Seq<ClickEvent>)
    requires
        signal_held_at_stop(events),
    ensures
        ({
            let issued = click_issued(s, events);
            let t = click_run(s, events);
            &&& click_count(issued, ClickAction::Press) == 0
            &&& click_count(issued, ClickAction::Sleep(CLICK_DELAY_MS)) + pauses_owed(t.phase)
                <= pauses_owed(s.phase)
            &&& click_count(issued, ClickAction::Sleep(CLICK_DELAY_MS)) <= 1
            &&& issued.len() + click_steps_left(t.phase) <= click_steps_left(s.phase)
            &&& click_steps_left(s.phase) <= 9
            &&& t.tally == s.tally
        }),
    decreases events.len(),
{
    if events.len() > 0 {
        let shorter = events.drop_last();
        assert forall|i: int| 0 <= i < shorter.len() && #[trigger] shorter[i] is Signal implies
            shorter[i] == ClickEvent::Signal(false) by {
            assert(shorter[i] == events[i]);
        }
        lemma_stop_is_prompt(s, shorter);
        let before = click_run(s, shorter);
        let earlier = click_issued(s, shorter);
        let e = events.last();
        assert(e is Signal ==> e == ClickEvent::Signal(false));
        match click_next(before, e) {
            Ok(after) => {
                let b = click_pending(after);
                lemma_count_push(earlier, b, ClickAction::Press);
                lemma_count_push(earlier, b, ClickAction::Sleep(CLICK_DELAY_MS));
            },
            Err(_) => {},
        }
    }
}

/// Whether the run `events` is undisturbed: the signal reads "running"
/// throughout, the display server never fails, and the pointer rests, no two
/// of its positions lying beyond the tolerance of each other.
pub open spec fn undisturbed(events: Seq<ClickEvent>) -> bool {
    &&& signal_held_at_running(events)
    &&& forall|i: int|
        0 <= i < events.len() ==> !(#[trigger] events[i] is ConnectFailed) && !(events[i]
            is RootMissing) && !(events[i] is PointerFailed)
    &&& forall|i: int, j: int|
        0 <= i < events.len() && 0 <= j < events.len() ==> (#[trigger] events[i] is Pointer
            && #[trigger] events[j] is Pointer ==> !displaced(
            events[i]->Pointer_0,
            events[j]->Pointer_0,
        ))
}

/// What an undisturbed run keeps true: the loop has not ended, and the
/// starting position, once taken, is one of the positions of the run.
spec fn still_going(s: ClickState, events: Seq<ClickEvent>) -> bool {
    &&& !click_has_ended(s.phase)
    &&& s.failure is None
    &&& s.start is None <==> s.phase is Connecting || s.phase is ResolvingRoot
        || s.phase is SamplingStart
    &&& s.start matches Some(start) ==> exists|j: int|
        0 <= j < events.len() && #[trigger] events[j] == ClickEvent::Pointer(start)
}

proof fn lemma_still_going(events: Seq<ClickEvent>)
    requires
        undisturbed(events),
    ensures
        still_going(click_run(click_init(), events), events),
    decreases events.len(),
{
    if events.len() > 0 {
        let shorter = events.drop_last();
        let last = events.len() - 1;
        assert forall|i: int| 0 <= i < shorter.len() implies shorter[i] == events[i] by {}
        assert(undisturbed(shorter)) by {
            assert forall|i: int| 0 <= i < shorter.len() && #[trigger] shorter[i]
                is Signal implies shorter[i] == ClickEvent::Signal(true) by {
                assert(shorter[i] == events[i]);
            }
            assert forall|i: int| 0 <= i < shorter.len() implies !(#[trigger] shorter[i]
                is ConnectFailed) && !(shorter[i] is RootMissing) && !(shorter[i]
                is PointerFailed) by {
                assert(shorter[i] == events[i]);
            }
            assert forall|i: int, j: int|
                0 <= i < shorter.len() && 0 <= j < shorter.len() && #[trigger] shorter[i]
                    is Pointer && #[trigger] shorter[j] is Pointer implies !displaced(
                    shorter[i]->Pointer_0,
                    shorter[j]->Pointer_0,
                ) by {
                assert(shorter[i] == events[i]);
                assert(shorter[j] == events[j]);
            }
        }
        lemma_still_going(shorter);
        let before = click_run(click_init(), shorter);
        let e = events.last();
        assert(e == events[last]);
        assert(e is Signal ==> e == ClickEvent::Signal(true));
        assert(!(e is ConnectFailed) && !(e is RootMissing) && !(e is PointerFailed));
        let after = click_run(click_init(), events);
        match before.start {
            Some(start) => {
                let j = choose|j: int|
                    0 <= j < shorter.len() && #[trigger] shorter[j] == ClickEvent::Pointer(start);
                assert(events[j] == ClickEvent::Pointer(start));
                if e is Pointer {
                    assert(!displaced(events[j]->Pointer_0, events[last]->Pointer_0));
                }
            },
            None => {
                if after.start is Some {
                    assert(events[last] == ClickEvent::Pointer(after.start->Some_0));
                }
            },
        }
    }
}

/// The loop never ends of its own accord: while the signal reads "running",
/// the pointer rests and the display server answers, the loop is still going
/// after any number of events, and it has reported nothing.
pub proof fn lemma_no_spontaneous_end(events: Seq<ClickEvent>)
    requires
        undisturbed(events),
    ensures
        !click_has_ended(click_run(click_init(), events).phase),
        click_outcome(click_run(click_init(), events)) is None,
        click_run(click_init(), events).failure is None,
{
    lemma_still_going(events);
}

/// Whether a loop in `phase` is past taking its starting position.
pub open spec fn click_has_start(phase: ClickPhase) -> bool {
    !(phase is Connecting || phase is ResolvingRoot || phase is SamplingStart)
}

/// The starting position is taken once and then stays. In a run from the
/// start, the loop has none before its first pointer query is answered and
/// has one for as long as it clicks, and a position that it had at some point
/// of the run is the one it has at every later point.
pub proof fn lemma_start_is_fixed(events: Seq<ClickEvent>, earlier: int)
    requires
        0 <= earlier <= events.len(),
    ensures
        ({
            let s = click_run(click_init(), events.take(earlier));
            let t = click_run(click_init(), events);
            &&& !click_has_start(t.phase) ==> t.start is None
            &&& click_has_start(t.phase) && !click_has_ended(t.phase) ==> t.start is Some
            &&& s.start is Some ==> t.start == s.start
        }),
    decreases events.len(),
{
    if earlier == events.len() {
        assert(events.take(earlier) =~= events);
        if events.len() > 0 {
            lemma_start_is_fixed(events.drop_last(), 0);
        }
    } else {
        assert(events.drop_last().take(earlier) =~= events.take(earlier));
        lemma_start_is_fixed(events.drop_last(), earlier);
    }
}

} // verus!
