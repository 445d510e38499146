use edamame_posture::errors::{exit_code, PostureError, ERROR_CODE_TIMEOUT};
use edamame_posture::poller::{
    poll_result, poll_step, ConnectionSnapshot, PollBudget, PollOutcome, PollVerdict,
    DEFAULT_WAIT_TIMEOUT_SECS, POLL_INTERVAL_SECS,
};

fn snapshot(connected: bool, activity: &str, error_code: &str) -> ConnectionSnapshot {
    ConnectionSnapshot {
        is_connected: connected,
        connected_domain: "example.com".to_string(),
        connected_user: "runner".to_string(),
        last_network_activity: activity.to_string(),
        last_report_signature: String::new(),
        backend_error_code: error_code.to_string(),
        backend_error_reason: String::new(),
    }
}

#[test]
fn six_second_timeout_ends_after_one_interval() {
    // A disconnected worker and a six-second budget: the very first poll,
    // five seconds in, already finds no room for another interval.
    let verdict = poll_step(PollBudget { remaining: 6 }, Some(&snapshot(false, "", "None")));
    assert_eq!(verdict, PollVerdict::Finished(PollOutcome::TimedOut));
    assert_eq!(poll_result(PollOutcome::TimedOut), Err(PostureError::TimeoutError));
    assert_eq!(exit_code(PostureError::TimeoutError), ERROR_CODE_TIMEOUT);
}

#[test]
fn connected_with_activity_succeeds() {
    let verdict = poll_step(
        PollBudget { remaining: DEFAULT_WAIT_TIMEOUT_SECS },
        Some(&snapshot(true, "2024-05-01T10:00:00Z", "None")),
    );
    assert_eq!(verdict, PollVerdict::Finished(PollOutcome::Connected));
    assert_eq!(poll_result(PollOutcome::Connected), Ok(()));
}

#[test]
fn connected_without_activity_keeps_waiting() {
    let verdict = poll_step(PollBudget { remaining: 600 }, Some(&snapshot(true, "", "None")));
    assert_eq!(verdict, PollVerdict::Continue(PollBudget { remaining: 595 }));
}

#[test]
fn backend_error_short_circuits() {
    // A backend rejection will never self-resolve by waiting: the poller
    // exits with a parameter error at once, budget untouched.
    let verdict = poll_step(
        PollBudget { remaining: 600 },
        Some(&snapshot(true, "2024-05-01T10:00:00Z", "InvalidPin")),
    );
    assert_eq!(verdict, PollVerdict::Finished(PollOutcome::BackendRejected));
    assert_eq!(poll_result(PollOutcome::BackendRejected), Err(PostureError::ParamError));
}

#[test]
fn backend_error_is_ignored_while_disconnected() {
    // Before a connection exists the error code carries no meaning.
    let verdict = poll_step(PollBudget { remaining: 600 }, Some(&snapshot(false, "", "Stale")));
    assert_eq!(verdict, PollVerdict::Continue(PollBudget { remaining: 595 }));
}

#[test]
fn failed_status_query_is_server_error() {
    let verdict = poll_step(PollBudget { remaining: 600 }, None);
    assert_eq!(verdict, PollVerdict::Finished(PollOutcome::EngineUnreachable));
    assert_eq!(poll_result(PollOutcome::EngineUnreachable), Err(PostureError::ServerError));
}

#[test]
fn wait_never_hangs() {
    // Iterating the step against a worker that never connects must reach a
    // timeout: the budget shrinks by one interval per poll.
    let mut budget = PollBudget { remaining: DEFAULT_WAIT_TIMEOUT_SECS };
    let mut polls = 0u64;
    loop {
        match poll_step(budget, Some(&snapshot(false, "", "None"))) {
            PollVerdict::Continue(next) => {
                assert!(next.remaining + POLL_INTERVAL_SECS <= budget.remaining);
                budget = next;
                polls += 1;
            }
            PollVerdict::Finished(outcome) => {
                assert_eq!(outcome, PollOutcome::TimedOut);
                break;
            }
        }
        assert!(polls <= DEFAULT_WAIT_TIMEOUT_SECS / POLL_INTERVAL_SECS);
    }
}
