//! The status poller: the blocking wait a foreground invocation performs
//! until the worker reports success, a backend rejection, or the deadline
//! passes. The caller owns the sleeping and the querying; this module owns
//! every decision, so the wait provably cannot run forever.
//!
//! One success predicate is used throughout: the worker is connected and has
//! observed network activity. A new poll is attempted only while a full retry
//! interval still fits in the remaining budget; a budget too small for
//! another interval is a timeout.

use vstd::prelude::*;

use crate::errors::PostureError;

verus! {

/// Seconds slept between two polls.
pub const POLL_INTERVAL_SECS: u64 = 5;

/// The wait deadline used when the operator names none, in seconds.
pub const DEFAULT_WAIT_TIMEOUT_SECS: u64 = 600;

/// A snapshot of the worker's connection status, as the store or the
/// engine's RPC surface reports it.
pub struct ConnectionSnapshot {
    pub is_connected: bool,
    pub connected_domain: String,
    pub connected_user: String,
    /// Timestamp text of the last observed network activity; empty when none.
    pub last_network_activity: String,
    pub last_report_signature: String,
    /// The backend's error code; the code below names the no-error marker.
    pub backend_error_code: String,
    pub backend_error_reason: String,
}

/// The backend's code for "no error".
pub open spec fn no_error_code() -> Seq<char> {
    seq!['N', 'o', 'n', 'e']
}

/// The poller's success: connected, with network activity observed.
pub open spec fn spec_connection_succeeded(c: ConnectionSnapshot) -> bool {
    c.is_connected && c.last_network_activity@.len() > 0
}

/// A backend rejection: the worker reached the backend and was refused.
/// The code carries no meaning before a connection exists, so it is read
/// only on a connected snapshot.
pub open spec fn spec_backend_rejected(c: ConnectionSnapshot) -> bool {
    c.is_connected && c.backend_error_code@ != no_error_code()
}

/// The wait budget still open to the poller, in seconds.
#[derive(Clone, Copy, Debug, PartialEq, Eq, Structural)]
pub struct PollBudget {
    pub remaining: u64,
}

/// How a finished wait ended.
#[derive(Clone, Copy, Debug, PartialEq, Eq, Structural)]
pub enum PollOutcome {
    /// The success predicate held.
    Connected,
    /// The backend refused the worker; waiting longer cannot help.
    BackendRejected,
    /// The status query itself failed.
    EngineUnreachable,
    /// The budget ran out before the worker connected.
    TimedOut,
}

/// What the caller does after one poll.
#[derive(Clone, Copy, Debug, PartialEq, Eq, Structural)]
pub enum PollVerdict {
    /// Sleep one interval, query again, and hand the answer to the next step.
    Continue(PollBudget),
    /// Stop with this outcome.
    Finished(PollOutcome),
}

/// The decision taken after one poll: `obs` is the queried status, `None`
/// when the query itself failed. One interval of the budget is spent; the
/// wait goes on only if another full interval fits.
pub open spec fn spec_poll_step(budget: PollBudget, obs: Option<ConnectionSnapshot>) -> PollVerdict {
    match obs {
        None => PollVerdict::Finished(PollOutcome::EngineUnreachable),
        Some(c) => if spec_backend_rejected(c) {
            PollVerdict::Finished(PollOutcome::BackendRejected)
        } else if spec_connection_succeeded(c) {
            PollVerdict::Finished(PollOutcome::Connected)
        } else {
            let left = if budget.remaining >= POLL_INTERVAL_SECS {
                (budget.remaining - POLL_INTERVAL_SECS) as u64
            } else {
                0u64
            };
            if left < POLL_INTERVAL_SECS {
                PollVerdict::Finished(PollOutcome::TimedOut)
            } else {
                PollVerdict::Continue(PollBudget { remaining: left })
            }
        },
    }
}

/// One step of the wait loop. The caller sleeps one interval, queries the
/// status, and calls this with the answer; on `Continue` it repeats with the
/// returned budget.
pub fn poll_step(budget: PollBudget, obs: Option<&ConnectionSnapshot>) -> (r: PollVerdict)
    ensures
        r == spec_poll_step(
            budget,
            match obs {
                Some(c) => Some(*c),
                None => None::<ConnectionSnapshot>,
            },
        ),
{
    let c = match obs {
        None => {
            return PollVerdict::Finished(PollOutcome::EngineUnreachable);
        },
        Some(c) => c,
    };
    let none_code = String::from_str("None");
    proof {
        reveal_strlit("None");
        assert(none_code@ =~= no_error_code());
    }
    if c.is_connected && !(c.backend_error_code == none_code) {
        return PollVerdict::Finished(PollOutcome::BackendRejected);
    }
    if c.is_connected && !c.last_network_activity.as_str().is_empty() {
        return PollVerdict::Finished(PollOutcome::Connected);
    }
    let left: u64 = if budget.remaining >= POLL_INTERVAL_SECS {
        budget.remaining - POLL_INTERVAL_SECS
    } else {
        0
    };
    if left < POLL_INTERVAL_SECS {
        PollVerdict::Finished(PollOutcome::TimedOut)
    } else {
        PollVerdict::Continue(PollBudget { remaining: left })
    }
}

/// What each ending of the wait means to the caller: success, or the error
/// owed for it. Only these four endings exist.
pub open spec fn spec_poll_result(o: PollOutcome) -> Result<(), PostureError> {
    match o {
        PollOutcome::Connected => Ok(()),
        PollOutcome::BackendRejected => Err(PostureError::ParamError),
        PollOutcome::EngineUnreachable => Err(PostureError::ServerError),
        PollOutcome::TimedOut => Err(PostureError::TimeoutError),
    }
}

/// Maps a finished wait to the command's result.
pub fn poll_result(o: PollOutcome) -> (r: Result<(), PostureError>)
    ensures
        r == spec_poll_result(o),
{
    match o {
        PollOutcome::Connected => Ok(()),
        PollOutcome::BackendRejected => Err(PostureError::ParamError),
        PollOutcome::EngineUnreachable => Err(PostureError::ServerError),
        PollOutcome::TimedOut => Err(PostureError::TimeoutError),
    }
}

/// Every continued wait strictly shrinks the budget by one interval, and a
/// continued budget still holds one: the wait ends after at most
/// `budget / interval` polls, never hanging indefinitely.
pub proof fn lemma_poll_progress(budget: PollBudget, obs: Option<ConnectionSnapshot>)
    ensures
        spec_poll_step(budget, obs) matches PollVerdict::Continue(b2) ==> b2.remaining
            + POLL_INTERVAL_SECS <= budget.remaining,
{
}

/// A six-second budget against a worker that reports itself disconnected
/// times out at the very first poll: one retry interval plus overhead.
pub proof fn lemma_short_timeout_times_out(c: ConnectionSnapshot)
    requires
        !c.is_connected,
    ensures
        spec_poll_step(PollBudget { remaining: 6 }, Some(c)) == PollVerdict::Finished(
            PollOutcome::TimedOut,
        ),
{
}

} // verus!
