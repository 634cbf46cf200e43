//! The control channel's decision rules.
//!
//! Signal handlers may only write one marker byte into the channel (and,
//! for termination, set an atomic flag); the loop drains the channel
//! when its blocking wait reports it readable. What to do with the
//! drained bytes is pure logic and is decided here; the draining, the
//! blocking wait and the handler registration are I/O and live outside
//! the library.

use vstd::prelude::*;

verus! {

/// The byte a signal handler writes to interrupt the wait.
pub const WAKE_MARKER: u8 = 88;

/// The byte a reload requester writes into the control channel.
pub const RELOAD_MARKER: u8 = 63;

/// The byte written back to acknowledge a reload.
pub const ACK_MARKER: u8 = 33;

/// How a blocking wait ended: the deadline passed, or the control
/// channel became readable first.
#[derive(Debug, Clone, Copy, PartialEq, Eq, Structural)]
pub enum SleepResult {
    Completed,
    FdReadable,
}

/// What the loop must do after draining the control channel.
#[derive(Debug, Clone, Copy, PartialEq, Eq, Structural)]
pub enum ControlOutcome {
    /// The terminate flag was set: exit the loop.
    Terminate,
    /// A reload was requested and the loop is not terminating: send one
    /// acknowledgement byte back, then re-fetch users and start the
    /// next iteration at once.
    Reload,
    /// A bare wake with nothing to act on: start the next iteration.
    Spurious,
}

/// What the drained bytes and the terminate flag dictate: termination
/// wins over everything; otherwise a reload marker among the drained
/// bytes asks for the acknowledged reload; otherwise the wake was
/// spurious.
pub open spec fn spec_classify(drained: Seq<u8>, terminate_flag: bool) -> ControlOutcome {
    if terminate_flag {
        ControlOutcome::Terminate
    } else if exists|i: int| 0 <= i < drained.len() && drained[i] == RELOAD_MARKER {
        ControlOutcome::Reload
    } else {
        ControlOutcome::Spurious
    }
}

/// Decide what a drain means. The terminate flag is read after
/// draining, so a terminate signal delivered during the wait is acted
/// on at this very drain.
pub fn classify_drained(drained: &Vec<u8>, terminate_flag: bool) -> (r: ControlOutcome)
    ensures
        r == spec_classify(drained@, terminate_flag),
{
    if terminate_flag {
        return ControlOutcome::Terminate;
    }
    let n = drained.len();
    let mut i: usize = 0;
    while i < n
        invariant
            0 <= i <= n,
            n == drained.len(),
            !terminate_flag,
            forall|j: int| 0 <= j < i ==> drained@[j] != RELOAD_MARKER,
        decreases n - i,
    {
        if drained[i] == RELOAD_MARKER {
            assert(exists|j: int| 0 <= j < drained@.len() && drained@[j] == RELOAD_MARKER) by {
                assert(drained@[i as int] == RELOAD_MARKER);
            }
            return ControlOutcome::Reload;
        }
        i = i + 1;
    }
    ControlOutcome::Spurious
}

/// The loop's view of the control channel.
#[derive(Debug, Clone, Copy, PartialEq, Eq, Structural)]
pub enum ControlState {
    /// Between waits.
    Idle,
    /// Blocked in the multiplexed wait.
    Waiting,
    /// Terminated; no further transitions.
    Stopped,
}

/// One observable step of the channel as the loop consumes it.
#[derive(Debug, Clone, Copy, PartialEq, Eq, Structural)]
pub enum ControlEvent {
    /// The loop enters the blocking wait.
    StartWait,
    /// The wait's deadline passed with no byte to read.
    TimedOut,
    /// The channel became readable; the fields carry what the drain
    /// then found.
    Drained { outcome: ControlOutcome },
}

/// The state machine of the channel as the loop consumes it: waiting
/// ends in idle again on a timeout or an acknowledged reload, and in
/// the terminal stopped state when termination was signalled. Stopped
/// is final.
pub open spec fn spec_control_step(s: ControlState, e: ControlEvent) -> ControlState {
    match (s, e) {
        (ControlState::Stopped, _) => ControlState::Stopped,
        (ControlState::Idle, ControlEvent::StartWait) => ControlState::Waiting,
        (ControlState::Idle, _) => ControlState::Idle,
        (ControlState::Waiting, ControlEvent::TimedOut) => ControlState::Idle,
        (ControlState::Waiting, ControlEvent::Drained { outcome }) => match outcome {
            ControlOutcome::Terminate => ControlState::Stopped,
            _ => ControlState::Idle,
        },
        (ControlState::Waiting, ControlEvent::StartWait) => ControlState::Waiting,
    }
}

/// Advance the channel state by one observed event.
pub fn control_step(s: ControlState, e: ControlEvent) -> (r: ControlState)
    ensures
        r == spec_control_step(s, e),
{
    match (s, e) {
        (ControlState::Stopped, _) => ControlState::Stopped,
        (ControlState::Idle, ControlEvent::StartWait) => ControlState::Waiting,
        (ControlState::Idle, _) => ControlState::Idle,
        (ControlState::Waiting, ControlEvent::TimedOut) => ControlState::Idle,
        (ControlState::Waiting, ControlEvent::Drained { outcome }) => match outcome {
            ControlOutcome::Terminate => ControlState::Stopped,
            _ => ControlState::Idle,
        },
        (ControlState::Waiting, ControlEvent::StartWait) => ControlState::Waiting,
    }
}

/// A terminate signal observed at a drain stops the loop: whatever
/// bytes were drained alongside it, a set terminate flag classifies as
/// `Terminate`, and that outcome drives a waiting channel into the
/// terminal state.
pub proof fn lemma_terminate_wins(drained: Seq<u8>, s: ControlState)
    requires
        s == ControlState::Waiting,
    ensures
        spec_classify(drained, true) == ControlOutcome::Terminate,
        spec_control_step(
            s,
            ControlEvent::Drained { outcome: spec_classify(drained, true) },
        ) == ControlState::Stopped,
{
}

} // verus!
