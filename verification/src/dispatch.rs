//! Dispatch-loop policy: design constants and the fail-fast classification of
//! a wait result.

use vstd::prelude::*;

verus! {

/// Bounded number of records one dispatch pass drains.
pub const BATCH_CAPACITY: usize = 128;

/// Bounded timeout of one dispatch pass, so the loop periodically wakes even
/// with no traffic.
pub const DISPATCH_TIMEOUT_MS: u64 = 10000;

/// Bounded timeout of a caller's single-shot poll.
pub const POLL_TIMEOUT_MS: u64 = 100000;

/// Platform code a timed-out wait reports.
pub const WAIT_TIMEOUT_CODE: i32 = 258;

/// What the dispatch loop does with one wait result.
#[derive(Clone, Copy, PartialEq, Eq, Structural, Debug)]
pub enum DispatchDecision {
    /// The wait succeeded: deliver the drained events downstream.
    Deliver,
    /// The wait timed out: not an error; wake, check for a stop request, wait
    /// again.
    Idle,
    /// Any other failure: no recovery path exists for a broken port, so the
    /// embedder must treat it as fatal.
    Fatal(i32),
}

/// Failure policy of the dispatch loop: a timeout is an outcome, not an
/// error; every other failure while draining is unrecoverable.
pub fn classify_wait(succeeded: bool, os_error: i32) -> (d: DispatchDecision)
    ensures
        succeeded ==> d == DispatchDecision::Deliver,
        !succeeded && os_error == WAIT_TIMEOUT_CODE ==> d == DispatchDecision::Idle,
        !succeeded && os_error != WAIT_TIMEOUT_CODE ==> d == DispatchDecision::Fatal(os_error),
{
    if succeeded {
        DispatchDecision::Deliver
    } else if os_error == WAIT_TIMEOUT_CODE {
        DispatchDecision::Idle
    } else {
        DispatchDecision::Fatal(os_error)
    }
}

} // verus!
