use autoclick::budget::RunBudget;
use autoclick::supervisor::{
    Supervisor, SupervisorAction, SupervisorEvent, SupervisorPhase, SystemStage, TICK_MS,
};

/// Runs the supervisor with a signal that reads "running" for the first
/// `running_reads` reads and "stop" afterwards; returns the actions asked for.
fn run(budget: RunBudget, running_reads: u64) -> Vec<SupervisorAction> {
    let mut machine = Supervisor::new(budget);
    let mut actions = Vec::new();
    let mut reads = 0;
    loop {
        let action = machine.pending();
        actions.push(action);
        let event = match action {
            SupervisorAction::Exit => return actions,
            SupervisorAction::ReadSignal => {
                reads += 1;
                SupervisorEvent::Signal(reads <= running_reads)
            }
            SupervisorAction::Join => SupervisorEvent::JoinEnded(true),
            _ => SupervisorEvent::Done,
        };
        assert!(machine.advance(event));
    }
}

fn slept(actions: &[SupervisorAction]) -> u64 {
    actions
        .iter()
        .map(|a| match a {
            SupervisorAction::Sleep(ms) => *ms,
            _ => 0,
        })
        .sum()
}

#[test]
fn a_tick_is_one_second() {
    assert_eq!(TICK_MS, 1000);
}

#[test]
fn the_click_loop_is_started_before_anything_else() {
    for budget in [RunBudget::unbounded(), RunBudget::of_seconds(0), RunBudget::of_seconds(3)] {
        let machine = Supervisor::new(budget);
        assert_eq!(machine.phase(), SupervisorPhase::Starting);
        assert_eq!(machine.pending(), SupervisorAction::StartClickLoop);
        assert_eq!(machine.stage(), SystemStage::Running);
    }
}

#[test]
fn a_budget_of_five_seconds_ticks_five_times_then_stops() {
    let actions = run(RunBudget::from_arg(Some("5")), u64::MAX);
    let mut expected = vec![SupervisorAction::StartClickLoop];
    for _ in 0..5 {
        expected.push(SupervisorAction::ReadSignal);
        expected.push(SupervisorAction::Sleep(1000));
    }
    expected.push(SupervisorAction::RequestStop);
    expected.push(SupervisorAction::Join);
    expected.push(SupervisorAction::Exit);
    assert_eq!(actions, expected);
    assert_eq!(slept(&actions), 5000);
}

#[test]
fn a_bounded_wait_sleeps_its_budget_and_no_more() {
    for seconds in 1u64..60 {
        let actions = run(RunBudget::of_seconds(seconds), u64::MAX);
        assert_eq!(slept(&actions), seconds * 1000);
        let reads = actions.iter().filter(|a| **a == SupervisorAction::ReadSignal).count() as u64;
        assert_eq!(reads, seconds);
        let stops = actions.iter().filter(|a| **a == SupervisorAction::RequestStop).count();
        assert_eq!(stops, 1);
    }
}

#[test]
fn a_bounded_wait_counts_its_ticks_down() {
    let mut machine = Supervisor::new(RunBudget::of_seconds(3));
    assert_eq!(machine.remaining(), Some(3));
    assert!(machine.advance(SupervisorEvent::Done));
    for left in [2u64, 1] {
        assert!(machine.advance(SupervisorEvent::Signal(true)));
        assert_eq!(machine.phase(), SupervisorPhase::Sleeping);
        assert!(machine.advance(SupervisorEvent::Done));
        assert_eq!(machine.remaining(), Some(left));
        assert_eq!(machine.phase(), SupervisorPhase::Polling);
    }
    assert!(machine.advance(SupervisorEvent::Signal(true)));
    assert!(machine.advance(SupervisorEvent::Done));
    assert_eq!(machine.remaining(), Some(0));
    assert_eq!(machine.phase(), SupervisorPhase::Stopping);
    assert_eq!(machine.stage(), SystemStage::Stopping);
}

#[test]
fn a_bounded_wait_is_cut_short_by_the_signal() {
    let actions = run(RunBudget::of_seconds(10), 2);
    assert_eq!(
        actions,
        vec![
            SupervisorAction::StartClickLoop,
            SupervisorAction::ReadSignal,
            SupervisorAction::Sleep(1000),
            SupervisorAction::ReadSignal,
            SupervisorAction::Sleep(1000),
            SupervisorAction::ReadSignal,
            SupervisorAction::RequestStop,
            SupervisorAction::Join,
            SupervisorAction::Exit,
        ]
    );
}

#[test]
fn an_unbounded_wait_polls_at_the_click_cadence() {
    for budget in [RunBudget::unbounded(), RunBudget::of_seconds(0), RunBudget::from_arg(Some("abc"))]
    {
        let actions = run(budget, 3);
        assert_eq!(
            actions,
            vec![
                SupervisorAction::StartClickLoop,
                SupervisorAction::ReadSignal,
                SupervisorAction::Sleep(300),
                SupervisorAction::ReadSignal,
                SupervisorAction::Sleep(300),
                SupervisorAction::ReadSignal,
                SupervisorAction::Sleep(300),
                SupervisorAction::ReadSignal,
                SupervisorAction::RequestStop,
                SupervisorAction::Join,
                SupervisorAction::Exit,
            ]
        );
    }
}

#[test]
fn an_unbounded_wait_goes_on_while_the_signal_reads_running() {
    let mut machine = Supervisor::new(RunBudget::unbounded());
    assert_eq!(machine.remaining(), None);
    assert!(machine.advance(SupervisorEvent::Done));
    for _ in 0..10_000 {
        assert_eq!(machine.pending(), SupervisorAction::ReadSignal);
        assert!(machine.advance(SupervisorEvent::Signal(true)));
        assert_eq!(machine.pending(), SupervisorAction::Sleep(300));
        assert!(machine.advance(SupervisorEvent::Done));
        assert_eq!(machine.stage(), SystemStage::Running);
        assert_eq!(machine.remaining(), None);
    }
}

#[test]
fn an_unbounded_wait_ends_at_the_first_poll_that_reads_stop() {
    let actions = run(RunBudget::unbounded(), 0);
    assert_eq!(
        actions,
        vec![
            SupervisorAction::StartClickLoop,
            SupervisorAction::ReadSignal,
            SupervisorAction::RequestStop,
            SupervisorAction::Join,
            SupervisorAction::Exit,
        ]
    );
    assert_eq!(slept(&actions), 0);
}

#[test]
fn a_failed_join_is_not_escalated() {
    for clean in [true, false] {
        let mut machine = Supervisor::new(RunBudget::unbounded());
        assert!(machine.advance(SupervisorEvent::Done));
        assert!(machine.advance(SupervisorEvent::Signal(false)));
        assert!(machine.advance(SupervisorEvent::Done));
        assert_eq!(machine.pending(), SupervisorAction::Join);
        assert_eq!(machine.stage(), SystemStage::Stopping);
        assert!(machine.advance(SupervisorEvent::JoinEnded(clean)));
        assert_eq!(machine.pending(), SupervisorAction::Exit);
        assert_eq!(machine.phase(), SupervisorPhase::Joined);
        assert_eq!(machine.stage(), SystemStage::Joined);
    }
}

#[test]
fn the_supervisor_turns_down_what_does_not_answer_its_action() {
    let all = [
        SupervisorEvent::Done,
        SupervisorEvent::Signal(true),
        SupervisorEvent::Signal(false),
        SupervisorEvent::JoinEnded(true),
        SupervisorEvent::JoinEnded(false),
    ];
    for event in all {
        let mut machine = Supervisor::new(RunBudget::of_seconds(4));
        let accepted = machine.advance(event);
        assert_eq!(accepted, event == SupervisorEvent::Done);
        if !accepted {
            assert_eq!(machine.phase(), SupervisorPhase::Starting);
            assert_eq!(machine.remaining(), Some(4));
        }
    }
    for event in all {
        let mut machine = Supervisor::new(RunBudget::of_seconds(4));
        assert!(machine.advance(SupervisorEvent::Done));
        let accepted = machine.advance(event);
        assert_eq!(accepted, matches!(event, SupervisorEvent::Signal(_)));
        if !accepted {
            assert_eq!(machine.phase(), SupervisorPhase::Polling);
            assert_eq!(machine.remaining(), Some(4));
        }
    }
    // Once joined, nothing is accepted any more.
    for event in all {
        let mut machine = Supervisor::new(RunBudget::unbounded());
        assert!(machine.advance(SupervisorEvent::Done));
        assert!(machine.advance(SupervisorEvent::Signal(false)));
        assert!(machine.advance(SupervisorEvent::Done));
        assert!(machine.advance(SupervisorEvent::JoinEnded(true)));
        assert!(!machine.advance(event));
        assert_eq!(machine.phase(), SupervisorPhase::Joined);
    }
}

#[test]
fn the_stages_come_in_order() {
    let mut machine = Supervisor::new(RunBudget::of_seconds(2));
    let mut stages = vec![machine.stage()];
    let mut reads = 0;
    while machine.pending() != SupervisorAction::Exit {
        let event = match machine.pending() {
            SupervisorAction::ReadSignal => {
                reads += 1;
                SupervisorEvent::Signal(reads < 2)
            }
            SupervisorAction::Join => SupervisorEvent::JoinEnded(false),
            _ => SupervisorEvent::Done,
        };
        assert!(machine.advance(event));
        if *stages.last().unwrap() != machine.stage() {
            stages.push(machine.stage());
        }
    }
    assert_eq!(stages, vec![SystemStage::Running, SystemStage::Stopping, SystemStage::Joined]);
}
