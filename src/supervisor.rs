//! Decisions of subprocess supervision: how a child's end is reported, and
//! what a bounded graceful-then-forced shutdown does next.
use vstd::prelude::*;

verus! {

/// How a supervised child ended.
#[derive(Clone, Copy, Debug, PartialEq, Eq, Structural)]
pub enum SubcommandExit {
    /// It exited by itself with status zero.
    Success,
    /// It exited by itself otherwise, or a signal ended it.
    Failure,
    /// It did not exit in time and was killed.
    Killed,
}

/// How a bounded wait for the child ended.
#[derive(Clone, Copy, Debug, PartialEq, Eq, Structural)]
pub enum WaitOutcome {
    /// The child exited; `code` is its exit code, absent when a signal ended it.
    Exited { code: Option<i32> },
    /// The time ran out with the child still running.
    TimedOut,
}

/// What follows a bounded wait.
#[derive(Clone, Copy, Debug, PartialEq, Eq, Structural)]
pub enum ShutdownStep {
    /// Report this outcome; nothing is left to do.
    Report(SubcommandExit),
    /// Kill the child, then report [`SubcommandExit::Killed`].
    Kill,
}

/// Lifecycle of a supervised child.
#[derive(Clone, Copy, Debug, PartialEq, Eq, Structural)]
pub enum ProcessState {
    Running,
    Exited(SubcommandExit),
}

pub open spec fn spec_exit_of(code: Option<i32>) -> SubcommandExit {
    match code {
        Some(c) => if c == 0 {
            SubcommandExit::Success
        } else {
            SubcommandExit::Failure
        },
        None => SubcommandExit::Failure,
    }
}

/// The report for a child that exited by itself.
pub fn exit_of(code: Option<i32>) -> (r: SubcommandExit)
    ensures
        r == spec_exit_of(code),
{
    match code {
        Some(c) => if c == 0 {
            SubcommandExit::Success
        } else {
            SubcommandExit::Failure
        },
        None => SubcommandExit::Failure,
    }
}

/// The step after waiting for the child: report how it exited, or kill it.
pub fn after_wait(outcome: WaitOutcome) -> (r: ShutdownStep)
    ensures
        r == match outcome {
            WaitOutcome::Exited { code } => ShutdownStep::Report(spec_exit_of(code)),
            WaitOutcome::TimedOut => ShutdownStep::Kill,
        },
{
    match outcome {
        WaitOutcome::Exited { code } => ShutdownStep::Report(exit_of(code)),
        WaitOutcome::TimedOut => ShutdownStep::Kill,
    }
}

/// A kill request: the new state, and whether a signal must be sent. Killing
/// a child that already ended does nothing.
pub fn on_kill(s: ProcessState) -> (r: (ProcessState, bool))
    ensures
        r == match s {
            ProcessState::Running => (ProcessState::Exited(SubcommandExit::Killed), true),
            ProcessState::Exited(e) => (s, false),
        },
{
    match s {
        ProcessState::Running => (ProcessState::Exited(SubcommandExit::Killed), true),
        ProcessState::Exited(_) => (s, false),
    }
}

/// The byte a leak guard writes down a registered child's lifeline.
pub const ARM_BYTE: u8 = 0x4c;

/// A child's view of its lifeline: a pipe whose other end only its manager
/// holds. The kernel closes that end when the manager dies, however it dies.
#[derive(Clone, Copy, Debug, PartialEq, Eq, Structural)]
pub enum Lifeline {
    /// Not registered with a guard (yet).
    Unarmed,
    /// Registered: the end of input means the manager died.
    Armed,
    /// The manager died: the child must exit now.
    Cut,
    /// The input ended before any registration: nothing to watch.
    Abandoned,
}

/// The next lifeline state after a byte (`Some`) or the end of input (`None`).
pub fn lifeline_step(s: Lifeline, input: Option<u8>) -> (r: Lifeline)
    ensures
        r == match (s, input) {
            (Lifeline::Unarmed, Some(b)) => if b == ARM_BYTE {
                Lifeline::Armed
            } else {
                Lifeline::Unarmed
            },
            (Lifeline::Unarmed, None) => Lifeline::Abandoned,
            (Lifeline::Armed, None) => Lifeline::Cut,
            _ => s,
        },
{
    match (s, input) {
        (Lifeline::Unarmed, Some(b)) => if b == ARM_BYTE {
            Lifeline::Armed
        } else {
            Lifeline::Unarmed
        },
        (Lifeline::Unarmed, None) => Lifeline::Abandoned,
        (Lifeline::Armed, None) => Lifeline::Cut,
        _ => s,
    }
}

} // verus!
