use autoclick::signal::{CancelSignal, SignalWatch};
use std::sync::Arc;

#[test]
fn a_fresh_signal_reads_running() {
    let signal = CancelSignal::new();
    let mut watch = SignalWatch::new(&signal);
    assert!(!watch.has_seen_stop());
    assert!(watch.is_running());
    assert!(watch.is_running());
    assert!(!watch.has_seen_stop());
}

#[test]
fn a_requested_stop_is_read() {
    let signal = CancelSignal::new();
    let mut watch = SignalWatch::new(&signal);
    watch.request_stop();
    assert!(watch.has_seen_stop());
    assert!(!watch.is_running());
}

#[test]
fn a_stop_requested_by_one_unit_is_read_by_the_other() {
    let signal = CancelSignal::new();
    let mut mine = SignalWatch::new(&signal);
    let mut theirs = SignalWatch::new(&signal);
    assert!(mine.is_running());
    assert!(theirs.is_running());
    theirs.request_stop();
    assert!(!mine.has_seen_stop());
    assert!(!mine.is_running());
    assert!(mine.has_seen_stop());
    assert!(!theirs.is_running());
}

#[test]
fn a_watch_made_after_the_stop_reads_stop() {
    let signal = CancelSignal::new();
    SignalWatch::new(&signal).request_stop();
    let mut late = SignalWatch::new(&signal);
    assert!(!late.has_seen_stop());
    assert!(!late.is_running());
    assert!(late.has_seen_stop());
}

#[test]
fn a_stop_stays_a_stop() {
    let signal = CancelSignal::new();
    let mut reader = SignalWatch::new(&signal);
    let mut writer = SignalWatch::new(&signal);
    let mut seen_stop = false;
    for round in 0..50 {
        if round == 20 || round == 21 || round == 40 {
            writer.request_stop();
        }
        let running = reader.is_running();
        if seen_stop {
            assert!(!running);
        }
        if !running {
            seen_stop = true;
        }
        assert_eq!(running, round < 20);
        assert_eq!(reader.has_seen_stop(), !running);
    }
    assert!(seen_stop);
}

#[test]
fn requesting_the_stop_twice_is_the_same_as_once() {
    let signal = CancelSignal::new();
    let mut first = SignalWatch::new(&signal);
    let mut second = SignalWatch::new(&signal);
    first.request_stop();
    second.request_stop();
    first.request_stop();
    assert!(!first.is_running());
    assert!(!second.is_running());
    assert!(!SignalWatch::new(&signal).is_running());
}

#[test]
fn a_signal_behind_a_shared_pointer_serves_both_holders() {
    let mine = Arc::new(CancelSignal::new());
    let theirs = Arc::clone(&mine);
    let mut my_watch = SignalWatch::new(&mine);
    let mut their_watch = SignalWatch::new(&theirs);
    assert!(my_watch.is_running());
    assert!(their_watch.is_running());
    their_watch.request_stop();
    assert!(!my_watch.is_running());
    assert!(!their_watch.is_running());
}

#[test]
fn a_reading_of_stop_is_latched() {
    let signal = CancelSignal::new();
    let mut watch = SignalWatch::new(&signal);
    assert!(watch.take_reading(true));
    assert!(!watch.has_seen_stop());
    assert!(!watch.take_reading(false));
    assert!(watch.has_seen_stop());
    // A later reading of "running" does not take the stop back.
    assert!(!watch.take_reading(true));
    assert!(watch.has_seen_stop());
    assert!(!watch.is_running());
}
