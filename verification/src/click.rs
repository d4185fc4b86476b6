//! The click loop: connect, take the pointer's starting position, then click
//! at the click cadence until the signal reads "stop", the pointer is moved
//! away, or the display server fails.
//!
//! The loop is a state machine. It names the one thing its driver must do next
//! ([`ClickLoop::pending`]); the driver does it and hands back what came of it
//! ([`ClickLoop::advance`]). The machine itself touches nothing outside.

use vstd::prelude::*;
use crate::movement::{displaced, pointer_moved, Position};

verus! {

/// Pause after each click, in milliseconds. It throttles the load on the
/// display server and is the interval at which the pointer is sampled.
pub const CLICK_DELAY_MS: u64 = 300;

/// The pointer button that is clicked: the first one.
pub const CLICK_BUTTON: u8 = 1;

/// Why a session with the display server could not be established.
#[derive(Clone, Copy, Debug, PartialEq, Eq)]
pub enum ConnectFault {
    /// A socket, pipe or other stream error.
    Stream,
    /// A protocol extension that the session needs is not supported.
    ExtensionNotSupported,
    /// Memory ran out.
    OutOfMemory,
    /// A request was longer than the server accepts.
    RequestTooLong,
    /// The display name could not be parsed.
    DisplayNameUnparsable,
    /// The server has no screen that matches the display.
    InvalidScreen,
    /// Passing a file descriptor failed.
    FdPassingFailed,
}

/// Why the click loop gave up. Each failure ends the loop at once: nothing is
/// retried and no count is reported.
#[derive(Clone, Copy, Debug, PartialEq, Eq)]
pub enum ClickError {
    /// No session with the display server.
    ConnectionFailure(ConnectFault),
    /// The display server advertises no root screen.
    NoRootScreen,
    /// Reading the pointer position failed; carries the server's error code.
    PointerQueryFailure(u8),
}

/// The words for a connection fault.
pub open spec fn connect_fault_text(fault: ConnectFault) -> Seq<char> {
    match fault {
        ConnectFault::Stream => "socket, pipe or stream error"@,
        ConnectFault::ExtensionNotSupported => "extension not supported"@,
        ConnectFault::OutOfMemory => "insufficient memory"@,
        ConnectFault::RequestTooLong => "request longer than the server accepts"@,
        ConnectFault::DisplayNameUnparsable => "display name cannot be parsed"@,
        ConnectFault::InvalidScreen => "no screen matches the display"@,
        ConnectFault::FdPassingFailed => "file descriptor passing failed"@,
    }
}

/// The words for the kind of a failure, without what it carries.
pub open spec fn click_error_text(e: ClickError) -> Seq<char> {
    match e {
        ClickError::ConnectionFailure(_) => "cannot connect to the display server"@,
        ClickError::NoRootScreen => "no root screen available"@,
        ClickError::PointerQueryFailure(_) => "cannot query the pointer position"@,
    }
}

impl ConnectFault {
    /// The fault in words, for a diagnostic line.
    pub fn describe(&self) -> (text: &'static str)
        ensures
            text@ == connect_fault_text(*self),
    {
        match self {
            ConnectFault::Stream => "socket, pipe or stream error",
            ConnectFault::ExtensionNotSupported => "extension not supported",
            ConnectFault::OutOfMemory => "insufficient memory",
            ConnectFault::RequestTooLong => "request longer than the server accepts",
            ConnectFault::DisplayNameUnparsable => "display name cannot be parsed",
            ConnectFault::InvalidScreen => "no screen matches the display",
            ConnectFault::FdPassingFailed => "file descriptor passing failed",
        }
    }
}

impl ClickError {
    /// The kind of the failure in words, for a diagnostic line.
    pub fn describe(&self) -> (text: &'static str)
        ensures
            text@ == click_error_text(*self),
    {
        match self {
            ClickError::ConnectionFailure(_) => "cannot connect to the display server",
            ClickError::NoRootScreen => "no root screen available",
            ClickError::PointerQueryFailure(_) => "cannot query the pointer position",
        }
    }
}

/// Where the click loop stands: each phase waits for the outcome of one action.
#[derive(Clone, Copy, Debug, PartialEq, Eq)]
pub enum ClickPhase {
    Connecting,
    ResolvingRoot,
    SamplingStart,
    CheckingSignal,
    Pressing,
    FlushingPress,
    Releasing,
    FlushingRelease,
    Pausing,
    SamplingCurrent,
    Reporting,
    Stopping,
    Finished,
}

/// What the driver is asked to do next.
#[derive(Clone, Copy, Debug, PartialEq, Eq)]
pub enum ClickAction {
    /// Open a session with the display server.
    Connect,
    /// Look up the first root screen that the server advertises.
    ResolveRoot,
    /// Read the pointer position.
    QueryPointer,
    /// Read the cancellation signal.
    ReadSignal,
    /// Inject a press of button [`CLICK_BUTTON`] at the pointer.
    Press,
    /// Flush pending requests to the server.
    Flush,
    /// Inject the button release that matches the press.
    Release,
    /// Suspend for this many milliseconds.
    Sleep(u64),
    /// Report on standard output that this many clicks were made.
    ReportClicks(u64),
    /// Report this failure on standard error.
    ReportFailure(ClickError),
    /// Set the cancellation signal to "stop".
    RequestStop,
    /// Nothing is left to do.
    Halt,
}

/// What came of the action that was pending.
#[derive(Clone, Copy, Debug, PartialEq, Eq)]
pub enum ClickEvent {
    /// The session is open.
    Connected,
    /// The session could not be opened.
    ConnectFailed(ConnectFault),
    /// A root screen was found.
    RootFound,
    /// The server advertises no root screen.
    RootMissing,
    /// The pointer is at this position.
    Pointer(Position),
    /// The pointer query failed with this error code.
    PointerFailed(u8),
    /// The cancellation signal was read: `true` for "running".
    Signal(bool),
    /// An action without a result (an injection, a flush, a sleep, a report,
    /// a stop request) has completed.
    Done,
}

/// Why an event was turned down. The machine is left as it was.
#[derive(Clone, Copy, Debug, PartialEq, Eq)]
pub enum StepError {
    /// The event does not answer the pending action.
    UnexpectedEvent,
    /// The signal reads "running", but the tally cannot count one more click.
    TallyOverflow,
}

/// The state of a click loop as plain data.
pub struct ClickState {
    pub phase: ClickPhase,
    /// The pointer position taken at the start, once it has been taken.
    pub start: Option<Position>,
    /// Clicks begun so far.
    pub tally: nat,
    /// The failure that ended the loop, if one did.
    pub failure: Option<ClickError>,
}

/// The state from which every click loop starts.
pub open spec fn click_init() -> ClickState {
    ClickState {
        phase: ClickPhase::Connecting,
        start: None,
        tally: 0,
        failure: None,
    }
}

/// The state `s` moved on to `phase`.
pub open spec fn click_goto(s: ClickState, phase: ClickPhase) -> ClickState {
    ClickState { phase, ..s }
}

/// The state `s` after the fatal error `e`: the loop goes straight to its report.
pub open spec fn click_fail(s: ClickState, e: ClickError) -> ClickState {
    ClickState { phase: ClickPhase::Reporting, failure: Some(e), ..s }
}

/// The action that a loop in state `s` waits for.
pub open spec fn click_pending(s: ClickState) -> ClickAction {
    match s.phase {
        ClickPhase::Connecting => ClickAction::Connect,
        ClickPhase::ResolvingRoot => ClickAction::ResolveRoot,
        ClickPhase::SamplingStart => ClickAction::QueryPointer,
        ClickPhase::CheckingSignal => ClickAction::ReadSignal,
        ClickPhase::Pressing => ClickAction::Press,
        ClickPhase::FlushingPress => ClickAction::Flush,
        ClickPhase::Releasing => ClickAction::Release,
        ClickPhase::FlushingRelease => ClickAction::Flush,
        ClickPhase::Pausing => ClickAction::Sleep(CLICK_DELAY_MS),
        ClickPhase::SamplingCurrent => ClickAction::QueryPointer,
        ClickPhase::Reporting => match s.failure {
            Some(e) => ClickAction::ReportFailure(e),
            None => ClickAction::ReportClicks(s.tally as u64),
        },
        ClickPhase::Stopping => ClickAction::RequestStop,
        ClickPhase::Finished => ClickAction::Halt,
    }
}

/// The transition function of the click loop: the state that follows `s` on
/// event `e`, or the reason why `e` is turned down.
///
/// A click is counted when the signal is read as "running", before its press
/// is injected; the pointer is sampled only after the click and the pause, so
/// the click that precedes a movement stop is part of the tally. A sample is
/// held against the starting position; should there be none, the sample
/// becomes the starting position.
pub open spec fn click_next(s: ClickState, e: ClickEvent) -> Result<ClickState, StepError> {
    match (s.phase, e) {
        (ClickPhase::Connecting, ClickEvent::Connected) => Ok(
            click_goto(s, ClickPhase::ResolvingRoot),
        ),
        (ClickPhase::Connecting, ClickEvent::ConnectFailed(fault)) => Ok(
            click_fail(s, ClickError::ConnectionFailure(fault)),
        ),
        (ClickPhase::ResolvingRoot, ClickEvent::RootFound) => Ok(
            click_goto(s, ClickPhase::SamplingStart),
        ),
        (ClickPhase::ResolvingRoot, ClickEvent::RootMissing) => Ok(
            click_fail(s, ClickError::NoRootScreen),
        ),
        (ClickPhase::SamplingStart, ClickEvent::Pointer(p)) => Ok(
            ClickState { phase: ClickPhase::CheckingSignal, start: Some(p), ..s },
        ),
        (ClickPhase::SamplingStart, ClickEvent::PointerFailed(code)) => Ok(
            click_fail(s, ClickError::PointerQueryFailure(code)),
        ),
        (ClickPhase::CheckingSignal, ClickEvent::Signal(running)) => if !running {
            Ok(click_goto(s, ClickPhase::Reporting))
        } else if s.tally < u64::MAX {
            Ok(ClickState { phase: ClickPhase::Pressing, tally: s.tally + 1, ..s })
        } else {
            Err(StepError::TallyOverflow)
        },
        (ClickPhase::Pressing, ClickEvent::Done) => Ok(click_goto(s, ClickPhase::FlushingPress)),
        (ClickPhase::FlushingPress, ClickEvent::Done) => Ok(click_goto(s, ClickPhase::Releasing)),
        (ClickPhase::Releasing, ClickEvent::Done) => Ok(
            click_goto(s, ClickPhase::FlushingRelease),
        ),
        (ClickPhase::FlushingRelease, ClickEvent::Done) => Ok(click_goto(s, ClickPhase::Pausing)),
        (ClickPhase::Pausing, ClickEvent::Done) => Ok(click_goto(s, ClickPhase::SamplingCurrent)),
        (ClickPhase::SamplingCurrent, ClickEvent::Pointer(p)) => match s.start {
            Some(start) => if displaced(start, p) {
                Ok(click_goto(s, ClickPhase::Reporting))
            } else {
                Ok(click_goto(s, ClickPhase::CheckingSignal))
            },
            None => Ok(ClickState { phase: ClickPhase::CheckingSignal, start: Some(p), ..s }),
        },
        (ClickPhase::SamplingCurrent, ClickEvent::PointerFailed(code)) => Ok(
            click_fail(s, ClickError::PointerQueryFailure(code)),
        ),
        (ClickPhase::Reporting, ClickEvent::Done) => Ok(click_goto(s, ClickPhase::Stopping)),
        (ClickPhase::Stopping, ClickEvent::Done) => Ok(click_goto(s, ClickPhase::Finished)),
        _ => Err(StepError::UnexpectedEvent),
    }
}

/// The click loop's state machine.
pub struct ClickLoop {
    phase: ClickPhase,
    start: Option<Position>,
    tally: u64,
    failure: Option<ClickError>,
}

impl View for ClickLoop {
    type V = ClickState;

    closed spec fn view(&self) -> ClickState {
        ClickState {
            phase: self.phase,
            start: self.start,
            tally: self.tally as nat,
            failure: self.failure,
        }
    }
}

impl ClickLoop {
    /// A click loop that has done nothing yet: it waits to be connected.
    pub fn new() -> (machine: ClickLoop)
        ensures
            machine@ == click_init(),
    {
        ClickLoop {
            phase: ClickPhase::Connecting,
            start: None,
            tally: 0,
            failure: None,
        }
    }

    /// The phase the loop is in.
    pub fn phase(&self) -> (phase: ClickPhase)
        ensures
            phase == self@.phase,
    {
        self.phase
    }

    /// The number of clicks begun so far.
    pub fn tally(&self) -> (tally: u64)
        ensures
            tally == self@.tally,
    {
        self.tally
    }

    /// The pointer position taken at the start, once it has been taken.
    pub fn start(&self) -> (start: Option<Position>)
        ensures
            start == self@.start,
    {
        self.start
    }

    /// The loop's result once it has ended: the click count, or the failure in
    /// place of a count. `None` while the loop is still going.
    pub fn outcome(&self) -> (outcome: Option<Result<u64, ClickError>>)
        ensures
            outcome == click_outcome(self@),
    {
        match self.phase {
            ClickPhase::Reporting | ClickPhase::Stopping | ClickPhase::Finished => {
                match self.failure {
                    Some(e) => Some(Err(e)),
                    None => Some(Ok(self.tally)),
                }
            },
            _ => None,
        }
    }

    /// The action that the driver is to perform next.
    pub fn pending(&self) -> (action: ClickAction)
        ensures
            action == click_pending(self@),
    {
        match self.phase {
            ClickPhase::Connecting => ClickAction::Connect,
            ClickPhase::ResolvingRoot => ClickAction::ResolveRoot,
            ClickPhase::SamplingStart => ClickAction::QueryPointer,
            ClickPhase::CheckingSignal => ClickAction::ReadSignal,
            ClickPhase::Pressing => ClickAction::Press,
            ClickPhase::FlushingPress => ClickAction::Flush,
            ClickPhase::Releasing => ClickAction::Release,
            ClickPhase::FlushingRelease => ClickAction::Flush,
            ClickPhase::Pausing => ClickAction::Sleep(CLICK_DELAY_MS),
            ClickPhase::SamplingCurrent => ClickAction::QueryPointer,
            ClickPhase::Reporting => match self.failure {
                Some(e) => ClickAction::ReportFailure(e),
                None => ClickAction::ReportClicks(self.tally),
            },
            ClickPhase::Stopping => ClickAction::RequestStop,
            ClickPhase::Finished => ClickAction::Halt,
        }
    }

    /// Takes in the outcome of the pending action and moves on.
    ///
    /// An event that answers the pending action is accepted and the machine
    /// moves as [`click_next`] says. Any other event is turned down and
    /// changes nothing, and so is a "running" signal once `u64::MAX` clicks
    /// have been counted.
    pub fn advance(&mut self, event: ClickEvent) -> (result: Result<(), StepError>)
        ensures
            match result {
                Ok(()) => click_next(old(self)@, event) == Ok::<ClickState, StepError>(
                    final(self)@,
                ),
                Err(e) => click_next(old(self)@, event) == Err::<ClickState, StepError>(e)
                    && final(self)@ == old(self)@,
            },
    {
        match (self.phase, event) {
            (ClickPhase::Connecting, ClickEvent::Connected) => {
                self.phase = ClickPhase::ResolvingRoot;
            },
            (ClickPhase::Connecting, ClickEvent::ConnectFailed(fault)) => {
                self.fail(ClickError::ConnectionFailure(fault));
            },
            (ClickPhase::ResolvingRoot, ClickEvent::RootFound) => {
                self.phase = ClickPhase::SamplingStart;
            },
            (ClickPhase::ResolvingRoot, ClickEvent::RootMissing) => {
                self.fail(ClickError::NoRootScreen);
            },
            (ClickPhase::SamplingStart, ClickEvent::Pointer(p)) => {
                self.start = Some(p);
                self.phase = ClickPhase::CheckingSignal;
            },
            (ClickPhase::SamplingStart, ClickEvent::PointerFailed(code)) => {
                self.fail(ClickError::PointerQueryFailure(code));
            },
            (ClickPhase::CheckingSignal, ClickEvent::Signal(running)) => {
                if !running {
                    self.phase = ClickPhase::Reporting;
                } else if self.tally < u64::MAX {
                    self.tally = self.tally + 1;
                    self.phase = ClickPhase::Pressing;
                } else {
                    return Err(StepError::TallyOverflow);
                }
            },
            (ClickPhase::Pressing, ClickEvent::Done) => {
                self.phase = ClickPhase::FlushingPress;
            },
            (ClickPhase::FlushingPress, ClickEvent::Done) => {
                self.phase = ClickPhase::Releasing;
            },
            (ClickPhase::Releasing, ClickEvent::Done) => {
                self.phase = ClickPhase::FlushingRelease;
            },
            (ClickPhase::FlushingRelease, ClickEvent::Done) => {
                self.phase = ClickPhase::Pausing;
            },
            (ClickPhase::Pausing, ClickEvent::Done) => {
                self.phase = ClickPhase::SamplingCurrent;
            },
            (ClickPhase::SamplingCurrent, ClickEvent::Pointer(p)) => {
                match self.start {
                    Some(start) => {
                        if pointer_moved(start, p) {
                            self.phase = ClickPhase::Reporting;
                        } else {
                            self.phase = ClickPhase::CheckingSignal;
                        }
                    },
                    None => {
                        self.start = Some(p);
                        self.phase = ClickPhase::CheckingSignal;
                    },
                }
            },
            (ClickPhase::SamplingCurrent, ClickEvent::PointerFailed(code)) => {
                self.fail(ClickError::PointerQueryFailure(code));
            },
            (ClickPhase::Reporting, ClickEvent::Done) => {
                self.phase = ClickPhase::Stopping;
            },
            (ClickPhase::Stopping, ClickEvent::Done) => {
                self.phase = ClickPhase::Finished;
            },
            _ => {
                return Err(StepError::UnexpectedEvent);
            },
        }
        Ok(())
    }

    /// Ends the loop with the fatal error `e`.
    fn fail(&mut self, e: ClickError)
        ensures
            final(self)@ == click_fail(old(self)@, e),
    {
        self.failure = Some(e);
        self.phase = ClickPhase::Reporting;
    }
}

/// Whether a loop in `phase` has ended, so that only its report and the stop
/// request are left.
pub open spec fn click_has_ended(phase: ClickPhase) -> bool {
    phase is Reporting || phase is Stopping || phase is Finished
}

/// The result of a loop in state `s`: nothing while it is going, then the
/// tally, or the failure in place of the tally.
pub open spec fn click_outcome(s: ClickState) -> Option<Result<u64, ClickError>> {
    if click_has_ended(s.phase) {
        match s.failure {
            Some(e) => Some(Err(e)),
            None => Some(Ok(s.tally as u64)),
        }
    } else {
        None
    }
}

} // verus!
