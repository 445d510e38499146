use vstd::prelude::*;

verus! {

/// Exit code of a run that completed without a fatal condition.
pub const EXIT_CODE_SUCCESS: i32 = 0;

/// Exit code reported when a policy violation is confirmed. The launcher also
/// uses it for the always-fatal conditions it reports itself (a worker already
/// reachable, a failed spawn), matching the fixed codes CI integrations rely on.
pub const ERROR_CODE_MISMATCH: i32 = 1;

/// Exit code reported when the engine's RPC surface fails or returns a
/// malformed response.
pub const ERROR_CODE_SERVER_ERROR: i32 = 2;

/// Exit code reported for invalid input or unresolved credentials.
pub const ERROR_CODE_PARAM: i32 = 3;

/// Exit code reported when a wait operation exceeds its deadline.
pub const ERROR_CODE_TIMEOUT: i32 = 4;

/// The error taxonomy of the front end. Every fatal path maps to exactly one
/// variant, and every variant to one documented process exit code.
#[derive(Clone, Copy, Debug, PartialEq, Eq, Structural)]
pub enum PostureError {
    /// A security-policy violation was confirmed.
    Mismatch,
    /// The engine's RPC surface failed or returned a malformed response.
    ServerError,
    /// Invalid command input or unresolved credentials.
    ParamError,
    /// A wait operation exceeded its deadline.
    TimeoutError,
    /// A launch was attempted while a worker is already reachable.
    AlreadyRunning,
    /// The operating system failed to create or daemonize the worker process.
    SpawnError,
}

/// The exit code owed to each error variant.
pub open spec fn spec_exit_code(e: PostureError) -> i32 {
    match e {
        PostureError::Mismatch => ERROR_CODE_MISMATCH,
        PostureError::ServerError => ERROR_CODE_SERVER_ERROR,
        PostureError::ParamError => ERROR_CODE_PARAM,
        PostureError::TimeoutError => ERROR_CODE_TIMEOUT,
        PostureError::AlreadyRunning => ERROR_CODE_MISMATCH,
        PostureError::SpawnError => ERROR_CODE_MISMATCH,
    }
}

/// Maps an error to the process exit code the operator and CI pipelines see.
/// Every error exits non-zero; success is `EXIT_CODE_SUCCESS`.
pub fn exit_code(e: PostureError) -> (r: i32)
    ensures
        r == spec_exit_code(e),
        r != EXIT_CODE_SUCCESS,
{
    match e {
        PostureError::Mismatch => ERROR_CODE_MISMATCH,
        PostureError::ServerError => ERROR_CODE_SERVER_ERROR,
        PostureError::ParamError => ERROR_CODE_PARAM,
        PostureError::TimeoutError => ERROR_CODE_TIMEOUT,
        PostureError::AlreadyRunning => ERROR_CODE_MISMATCH,
        PostureError::SpawnError => ERROR_CODE_MISMATCH,
    }
}

} // verus!
