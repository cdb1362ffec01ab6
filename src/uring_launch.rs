//! The retry rule for launching the thread-local io_uring system: a launch
//! that ran out of locked memory is tried again after a back-off, any other
//! failure is fatal to the process.
use vstd::prelude::*;

verus! {

/// How one launch attempt ended.
#[derive(Clone, Copy, Debug, PartialEq, Eq, Structural)]
pub enum LaunchOutcome {
    Launched,
    /// The kernel refused for want of locked memory.
    OutOfMemory,
    /// Any other error while building the ring.
    Failed,
}

/// What to do after an attempt.
#[derive(Clone, Copy, Debug, PartialEq, Eq, Structural)]
pub enum LaunchStep {
    /// The system is up: hand it out.
    Ready,
    /// Back off and try again as attempt number `next_attempt`.
    Retry { next_attempt: u32 },
    /// Abort the process, as for a fatal I/O error.
    Abort,
}

/// The attempt counter counts modulo 2^32, as an atomic fetch-and-add does.
pub open spec fn next_attempt_spec(attempt: u32) -> u32 {
    if attempt == u32::MAX {
        0
    } else {
        (attempt + 1) as u32
    }
}

pub fn launch_step(attempt: u32, outcome: LaunchOutcome) -> (r: LaunchStep)
    ensures
        r == match outcome {
            LaunchOutcome::Launched => LaunchStep::Ready,
            LaunchOutcome::OutOfMemory => LaunchStep::Retry { next_attempt: next_attempt_spec(attempt) },
            LaunchOutcome::Failed => LaunchStep::Abort,
        },
{
    match outcome {
        LaunchOutcome::Launched => LaunchStep::Ready,
        LaunchOutcome::OutOfMemory => LaunchStep::Retry {
            next_attempt: if attempt == u32::MAX {
                0
            } else {
                attempt + 1
            },
        },
        LaunchOutcome::Failed => LaunchStep::Abort,
    }
}

} // verus!
