//! The cancellation signal that the click loop and the supervisor share.
//!
//! It is one flag that starts as "running" and can only ever be moved to
//! "stop". Both units may request the stop and both read the flag on every
//! round; no lock is involved. [`CancelSignal`] is the flag itself, and each
//! unit reaches it through a [`SignalWatch`] of its own. [`SignalOp`] and
//! [`reads_running`] model what the readers of one flag can observe between
//! them, and the laws at the end are proved of that model.

use std::sync::atomic::AtomicBool;
use std::sync::atomic::Ordering;
use vstd::prelude::*;

verus! {

/// The shared flag. Every access is one sequentially consistent atomic
/// operation, so all reads and stop requests of a run fall into one order.
///
/// The flag is private and nothing here writes "running" to it after
/// construction: a stop, once requested, cannot be taken back. What a read of
/// the flag returns depends on what the other unit has done by then, so
/// nothing is promised of a single read; [`reads_running`] says what the
/// reads of a run can see, and a [`SignalWatch`] holds its unit to it.
pub struct CancelSignal {
    running: AtomicBool,
}

impl CancelSignal {
    /// A fresh signal, reading "running".
    pub fn new() -> CancelSignal {
        CancelSignal { running: AtomicBool::new(true) }
    }

    fn load(&self) -> bool {
        self.running.load(Ordering::SeqCst)
    }

    fn store_stop(&self) {
        self.running.store(false, Ordering::SeqCst);
    }
}

/// One unit's end of a shared signal. It remembers whether its unit has
/// already read "stop" or asked for the stop itself; from then on it answers
/// "stop" whatever happens. So the reads of a unit are monotonic by
/// construction.
pub struct SignalWatch<'a> {
    signal: &'a CancelSignal,
    stopped: bool,
}

impl<'a> SignalWatch<'a> {
    /// Whether this unit has read "stop" or requested the stop.
    pub closed spec fn seen_stop(&self) -> bool {
        self.stopped
    }

    /// A watch on `signal` for a unit that knows of no stop yet.
    pub fn new(signal: &'a CancelSignal) -> (watch: SignalWatch<'a>)
        ensures
            !watch.seen_stop(),
    {
        SignalWatch { signal, stopped: false }
    }

    /// Whether this unit has read "stop" or requested the stop.
    pub fn has_seen_stop(&self) -> (seen: bool)
        ensures
            seen == self.seen_stop(),
    {
        self.stopped
    }

    /// Reads the signal: `true` for "running". What the flag holds is up to
    /// both units, so only this much is promised: once this unit has seen the
    /// stop, it reads "stop" ever after; and a read of "stop" is remembered.
    pub fn is_running(&mut self) -> (running: bool)
        ensures
            old(self).seen_stop() ==> !running,
            final(self).seen_stop() == !running,
    {
        let flag_running = self.signal.load();
        self.take_reading(flag_running)
    }

    /// Takes in what the flag was found to hold and tells what this unit
    /// reads: "running" only if the flag said so and the unit has seen no
    /// stop before.
    pub fn take_reading(&mut self, flag_running: bool) -> (running: bool)
        ensures
            running == (flag_running && !old(self).seen_stop()),
            final(self).seen_stop() == !running,
    {
        if !flag_running {
            self.stopped = true;
        }
        !self.stopped
    }

    /// Requests the stop, for every holder of the signal. Requesting it again
    /// changes nothing.
    pub fn request_stop(&mut self)
        ensures
            final(self).seen_stop(),
    {
        self.signal.store_stop();
        self.stopped = true;
    }
}

/// One access to the signal.
pub enum SignalOp {
    /// Some unit reads the flag.
    Read,
    /// Some unit requests the stop.
    RequestStop,
}

/// What a read observes that comes after the accesses `history`, taken in the
/// one order into which a run's accesses fall: "running" (`true`) as long as
/// no stop request is among them.
pub open spec fn reads_running(history: Seq<SignalOp>) -> bool {
    forall|i: int| 0 <= i < history.len() ==> #[trigger] history[i] is Read
}

/// A fresh signal reads "running".
pub proof fn lemma_signal_starts_running()
    ensures
        reads_running(Seq::<SignalOp>::empty()),
{
}

/// Right after a stop request the signal reads "stop", whatever went before;
/// a read changes nothing about what the next read sees.
pub proof fn lemma_signal_follows_requests(history: Seq<SignalOp>)
    ensures
        !reads_running(history.push(SignalOp::RequestStop)),
        reads_running(history.push(SignalOp::Read)) == reads_running(history),
{
    let stopped = history.push(SignalOp::RequestStop);
    assert(stopped[history.len() as int] is RequestStop);
    let read = history.push(SignalOp::Read);
    if reads_running(history) {
        assert forall|i: int| 0 <= i < read.len() implies #[trigger] read[i] is Read by {
            if i < history.len() {
                assert(read[i] == history[i]);
            }
        }
    }
    if reads_running(read) {
        assert forall|i: int| 0 <= i < history.len() implies #[trigger] history[i] is Read by {
            assert(read[i] == history[i]);
        }
    }
}

/// The signal is monotonic: once a read has observed "stop", every later read
/// of the same run observes "stop" too, whatever accesses lie between them.
pub proof fn lemma_signal_is_monotonic(history: Seq<SignalOp>, earlier: int, later: int)
    requires
        0 <= earlier <= later <= history.len(),
        !reads_running(history.take(earlier)),
    ensures
        !reads_running(history.take(later)),
{
    let before = history.take(earlier);
    let i = choose|i: int| 0 <= i < before.len() && !(#[trigger] before[i] is Read);
    assert(history.take(later)[i] == before[i]);
}

/// Requesting the stop again is a no-op in effect: what later reads observe
/// does not depend on how often the stop was requested.
pub proof fn lemma_stop_request_is_idempotent(history: Seq<SignalOp>)
    ensures
        reads_running(history.push(SignalOp::RequestStop).push(SignalOp::RequestStop))
            == reads_running(history.push(SignalOp::RequestStop)),
{
    lemma_signal_follows_requests(history);
    lemma_signal_follows_requests(history.push(SignalOp::RequestStop));
}

} // verus!
