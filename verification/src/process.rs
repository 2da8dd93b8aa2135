//! Participant tags and the classification of child exit statuses.
use vstd::prelude::*;

verus! {

/// The role of a child process within one match.
#[derive(Clone, Copy, Debug, PartialEq, Eq, Structural)]
pub enum ProcessType {
    /// The solo player's runner.
    Runner,
    /// The first player's runner in a versus match.
    RunnerPlayer1,
    /// The second player's runner in a versus match.
    RunnerPlayer2,
    /// The game simulator.
    Simulator,
}

/// How a child process ended, as reaped by the orchestrator.
#[derive(Clone, Copy, Debug, PartialEq, Eq, Structural)]
pub enum ExitStatus {
    /// Exit code zero.
    Success,
    /// A non-zero exit code.
    Failed(i32),
    /// Terminated directly by a signal.
    KilledBySignal(i32),
}

/// The failure class attributed to a non-success exit.
#[derive(Clone, Copy, Debug, PartialEq, Eq, Structural)]
pub enum FailureKind {
    /// The sandbox's out-of-time enforcement killed the child.
    Timeout,
    /// The child failed on its own.
    RuntimeFailure,
}

/// Exit code 137 is the sandbox's SIGKILL for a child that ran out of time.
pub const TIMEOUT_EXIT_CODE: i32 = 137;

/// The classification of an exit status: success carries no failure; a
/// signal death or exit code 137 is a timeout; any other non-zero exit code
/// is a runtime failure.
pub open spec fn classified(status: ExitStatus) -> Option<FailureKind> {
    match status {
        ExitStatus::Success => None,
        ExitStatus::KilledBySignal(_) => Some(FailureKind::Timeout),
        ExitStatus::Failed(code) => if code == TIMEOUT_EXIT_CODE {
            Some(FailureKind::Timeout)
        } else {
            Some(FailureKind::RuntimeFailure)
        },
    }
}

/// Classifies an exit status.
pub fn classify(status: ExitStatus) -> (r: Option<FailureKind>)
    ensures
        r == classified(status),
{
    match status {
        ExitStatus::Success => None,
        ExitStatus::KilledBySignal(_) => Some(FailureKind::Timeout),
        ExitStatus::Failed(code) => {
            if code == TIMEOUT_EXIT_CODE {
                Some(FailureKind::Timeout)
            } else {
                Some(FailureKind::RuntimeFailure)
            }
        },
    }
}

} // verus!
