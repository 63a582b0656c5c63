use vstd::prelude::*;

use crate::timestamp::Timestamp;

verus! {

/// What the background worker does next.
#[derive(Clone, Copy, Debug, PartialEq, Eq, Structural)]
pub enum WorkerStep {
    /// No target is set: wait until one is.
    WaitForChange,
    /// Wait this many nanoseconds, or until the target changes.
    Sleep(u64),
    /// The target has come: run the background operations now.
    PerformOperations,
}

/// The background worker's next step, given its target and the time now: it
/// acts once the target is not later than `now`.
pub fn next_worker_step(target: Option<Timestamp>, now: Timestamp) -> (r: WorkerStep)
    ensures
        r == match target {
            None => WorkerStep::WaitForChange,
            Some(t) => if t.nanos <= now.nanos {
                WorkerStep::PerformOperations
            } else {
                WorkerStep::Sleep((t.nanos - now.nanos) as u64)
            },
        },
{
    match target {
        None => WorkerStep::WaitForChange,
        Some(t) => match t.duration_since(now) {
            Some(remaining) => if remaining == 0 {
                WorkerStep::PerformOperations
            } else {
                WorkerStep::Sleep(remaining)
            },
            None => WorkerStep::PerformOperations,
        },
    }
}

} // verus!
