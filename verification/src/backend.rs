//! Decisions of the backend-facing retry loops: checking a policy for a
//! domain, and requesting a report by signature. Each loop asks the engine,
//! reads the connection's backend error code, and either finishes with an
//! exit code or retries after a fixed delay until its own deadline. The
//! caller sleeps and queries; the decisions live here.

use vstd::prelude::*;

use crate::errors::{
    ERROR_CODE_MISMATCH, ERROR_CODE_PARAM, ERROR_CODE_SERVER_ERROR, EXIT_CODE_SUCCESS,
};

verus! {

/// Seconds a backend retry loop waits in all before giving up.
pub const BACKEND_RETRY_TIMEOUT_SECS: u64 = 20;

/// Seconds between two backend retries.
pub const BACKEND_RETRY_INTERVAL_SECS: u64 = 2;

/// The backend's code for "no error".
pub open spec fn backend_no_error() -> Seq<char> {
    "None"@
}

/// The backend's code for a signature it does not (yet) know.
pub open spec fn backend_invalid_signature() -> Seq<char> {
    "InvalidSignature"@
}

/// The backend's code for a policy name it does not know.
pub open spec fn backend_invalid_policy() -> Seq<char> {
    "InvalidPolicy"@
}

/// What a retry loop does after one attempt.
#[derive(Clone, Copy, Debug, PartialEq, Eq, Structural)]
pub enum RetryStep {
    /// Sleep one retry interval and ask again.
    RetryAfterDelay,
    /// Stop and exit with this code.
    Finished(i32),
}

/// The policy-check decision after one attempt: no backend error settles the
/// check by its result; an unknown signature is retried until the deadline,
/// then an input error; an unknown policy is an input error at once; any
/// other backend error is a server error.
pub open spec fn spec_policy_check_step(
    error_code: Seq<char>,
    policy_ok: bool,
    timed_out: bool,
) -> RetryStep {
    if error_code == backend_no_error() {
        if policy_ok {
            RetryStep::Finished(EXIT_CODE_SUCCESS)
        } else {
            RetryStep::Finished(ERROR_CODE_MISMATCH)
        }
    } else if error_code == backend_invalid_signature() {
        if timed_out {
            RetryStep::Finished(ERROR_CODE_PARAM)
        } else {
            RetryStep::RetryAfterDelay
        }
    } else if error_code == backend_invalid_policy() {
        RetryStep::Finished(ERROR_CODE_PARAM)
    } else {
        RetryStep::Finished(ERROR_CODE_SERVER_ERROR)
    }
}

/// Decides one round of the policy check. `policy_ok` is the engine's
/// answer, `timed_out` whether the loop's own deadline has passed.
pub fn policy_check_step(error_code: &String, policy_ok: bool, timed_out: bool) -> (r: RetryStep)
    ensures
        r == spec_policy_check_step(error_code@, policy_ok, timed_out),
{
    let none_code = String::from_str("None");
    let invalid_signature = String::from_str("InvalidSignature");
    let invalid_policy = String::from_str("InvalidPolicy");
    if *error_code == none_code {
        if policy_ok {
            RetryStep::Finished(EXIT_CODE_SUCCESS)
        } else {
            RetryStep::Finished(ERROR_CODE_MISMATCH)
        }
    } else if *error_code == invalid_signature {
        if timed_out {
            RetryStep::Finished(ERROR_CODE_PARAM)
        } else {
            RetryStep::RetryAfterDelay
        }
    } else if *error_code == invalid_policy {
        RetryStep::Finished(ERROR_CODE_PARAM)
    } else {
        RetryStep::Finished(ERROR_CODE_SERVER_ERROR)
    }
}

/// The report-request decision after one attempt: no backend error is
/// success; any error is retried until the deadline, then an unknown
/// signature is an input error and anything else a server error.
pub open spec fn spec_report_request_step(error_code: Seq<char>, timed_out: bool) -> RetryStep {
    if error_code == backend_no_error() {
        RetryStep::Finished(EXIT_CODE_SUCCESS)
    } else if !timed_out {
        RetryStep::RetryAfterDelay
    } else if error_code == backend_invalid_signature() {
        RetryStep::Finished(ERROR_CODE_PARAM)
    } else {
        RetryStep::Finished(ERROR_CODE_SERVER_ERROR)
    }
}

/// Decides one round of the report request.
pub fn report_request_step(error_code: &String, timed_out: bool) -> (r: RetryStep)
    ensures
        r == spec_report_request_step(error_code@, timed_out),
{
    let none_code = String::from_str("None");
    let invalid_signature = String::from_str("InvalidSignature");
    if *error_code == none_code {
        RetryStep::Finished(EXIT_CODE_SUCCESS)
    } else if !timed_out {
        RetryStep::RetryAfterDelay
    } else if *error_code == invalid_signature {
        RetryStep::Finished(ERROR_CODE_PARAM)
    } else {
        RetryStep::Finished(ERROR_CODE_SERVER_ERROR)
    }
}

} // verus!
