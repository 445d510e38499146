use edamame_posture::canceller::CancellationOutcome;
use edamame_posture::errors::{
    ERROR_CODE_MISMATCH, ERROR_CODE_SERVER_ERROR, EXIT_CODE_SUCCESS,
};
use edamame_posture::monitor::{
    collect_policy_violations, filter_sessions_for_display, halt_exit_code,
    sessions_check_exit_code, violation_reaction, MonitorCheckError, MonitorClock, PolicyChecks,
    TickObservations, WhitelistObservation,
};
use edamame_posture::state::{SessionRecord, WhitelistState};

fn session(uid: &str, local: bool, ws: WhitelistState) -> SessionRecord {
    SessionRecord {
        uid: uid.to_string(),
        src_ip: "10.0.0.2".to_string(),
        src_port: 40000,
        dst_ip: "203.0.113.9".to_string(),
        dst_port: 443,
        protocol: "TCP".to_string(),
        is_local: local,
        whitelist_state: ws,
    }
}

fn uids(v: &[SessionRecord]) -> Vec<&str> {
    v.iter().map(|s| s.uid.as_str()).collect()
}

#[test]
fn clock_fires_every_check_interval() {
    let mut clock = MonitorClock::new();
    assert!(!clock.tick(true)); // 5 seconds accumulated
    assert!(clock.tick(true)); // 10 seconds: check fires, counter resets
    assert!(!clock.tick(true));
    assert!(clock.tick(true));
}

#[test]
fn clock_idles_with_no_check_enabled() {
    // With no fail-on check enabled there is nothing to check for.
    let no_checks = PolicyChecks {
        fail_on_whitelist: false,
        fail_on_blacklist: false,
        fail_on_anomalous: false,
        include_local_traffic: false,
    };
    assert!(!no_checks.any_enabled());
    let mut clock = MonitorClock::new();
    for _ in 0..100 {
        assert!(!clock.tick(no_checks.any_enabled()));
    }
}

#[test]
fn any_single_check_arms_the_cadence() {
    // Each fail-on flag alone arms the check cadence; no other flag is
    // consulted.
    let mut checks = PolicyChecks {
        fail_on_whitelist: true,
        fail_on_blacklist: false,
        fail_on_anomalous: false,
        include_local_traffic: false,
    };
    assert!(checks.any_enabled());
    checks = PolicyChecks { fail_on_whitelist: false, fail_on_blacklist: true, ..checks };
    assert!(checks.any_enabled());
    checks = PolicyChecks { fail_on_blacklist: false, fail_on_anomalous: true, ..checks };
    assert!(checks.any_enabled());
}

#[test]
fn three_violations_halt_with_one_cancellation() {
    // Two blacklisted and one anomalous session, whitelist check off: the
    // canceller is invoked exactly once and the worker exits with the
    // mismatch code, whatever the cancellation reported.
    let checks = PolicyChecks {
        fail_on_whitelist: false,
        fail_on_blacklist: true,
        fail_on_anomalous: true,
        include_local_traffic: false,
    };
    let obs = TickObservations {
        whitelist: None,
        blacklisted: Some(vec![
            session("bl-1", false, WhitelistState::Unknown),
            session("bl-2", false, WhitelistState::Unknown),
        ]),
        anomalous: Some(vec![session("an-1", false, WhitelistState::Unknown)]),
    };
    let violations = collect_policy_violations(&checks, &obs).expect("both queries answered");
    assert_eq!(uids(&violations), vec!["bl-1", "bl-2", "an-1"]);
    let directive = violation_reaction(&violations).expect("violations must halt the worker");
    assert_eq!(directive.canceller_invocations, 1);
    assert_eq!(directive.exit_code, ERROR_CODE_MISMATCH);
    assert_eq!(halt_exit_code(&CancellationOutcome::Success), ERROR_CODE_MISMATCH);
    assert_eq!(
        halt_exit_code(&CancellationOutcome::ScriptFailed { exit_code: Some(7) }),
        ERROR_CODE_MISMATCH
    );
    assert_eq!(
        halt_exit_code(&CancellationOutcome::EnvironmentUnsupported),
        ERROR_CODE_MISMATCH
    );
}

#[test]
fn empty_violation_set_keeps_running() {
    let violations: Vec<SessionRecord> = Vec::new();
    assert!(violation_reaction(&violations).is_none());
}

#[test]
fn duplicate_identity_across_checks_collapses() {
    let checks = PolicyChecks {
        fail_on_whitelist: false,
        fail_on_blacklist: true,
        fail_on_anomalous: true,
        include_local_traffic: false,
    };
    let obs = TickObservations {
        whitelist: None,
        blacklisted: Some(vec![session("dup", false, WhitelistState::Unknown)]),
        anomalous: Some(vec![
            session("dup", false, WhitelistState::Unknown),
            session("other", false, WhitelistState::Unknown),
        ]),
    };
    let violations = collect_policy_violations(&checks, &obs).unwrap();
    assert_eq!(uids(&violations), vec!["dup", "other"]);
}

#[test]
fn local_traffic_is_excluded_unless_included() {
    let mut checks = PolicyChecks {
        fail_on_whitelist: false,
        fail_on_blacklist: true,
        fail_on_anomalous: false,
        include_local_traffic: false,
    };
    let obs = TickObservations {
        whitelist: None,
        blacklisted: Some(vec![
            session("local", true, WhitelistState::Unknown),
            session("global", false, WhitelistState::Unknown),
        ]),
        anomalous: None,
    };
    let violations = collect_policy_violations(&checks, &obs).unwrap();
    assert_eq!(uids(&violations), vec!["global"]);
    checks.include_local_traffic = true;
    let violations = collect_policy_violations(&checks, &obs).unwrap();
    assert_eq!(uids(&violations), vec!["local", "global"]);
}

#[test]
fn conforming_whitelist_raises_nothing() {
    let checks = PolicyChecks {
        fail_on_whitelist: true,
        fail_on_blacklist: false,
        fail_on_anomalous: false,
        include_local_traffic: false,
    };
    let obs = TickObservations {
        whitelist: Some(WhitelistObservation {
            conforms: true,
            sessions: vec![session("s", false, WhitelistState::NonConforming)],
        }),
        blacklisted: None,
        anomalous: None,
    };
    let violations = collect_policy_violations(&checks, &obs).unwrap();
    assert!(violations.is_empty());
}

#[test]
fn failed_query_abandons_the_tick() {
    // An engine outage is not a violation: the tick reports which query
    // failed and the monitor goes on to the next tick.
    let checks = PolicyChecks {
        fail_on_whitelist: false,
        fail_on_blacklist: true,
        fail_on_anomalous: true,
        include_local_traffic: false,
    };
    let obs = TickObservations {
        whitelist: None,
        blacklisted: None,
        anomalous: Some(Vec::new()),
    };
    let err = collect_policy_violations(&checks, &obs).unwrap_err();
    assert_eq!(err, MonitorCheckError::BlacklistUnavailable);
}

#[test]
fn whitelist_enforcement_halts_within_one_check_interval() {
    // A worker started with whitelist enforcement alone — no other flag —
    // sees one non-conforming session: the check fires after two
    // housekeeping sleeps, the session is reported, and the worker exits
    // with the mismatch code.
    let checks = PolicyChecks {
        fail_on_whitelist: true,
        fail_on_blacklist: false,
        fail_on_anomalous: false,
        include_local_traffic: false,
    };
    let mut clock = MonitorClock::new();
    let mut fired_at = None;
    for tick in 1u32..=2 {
        if clock.tick(checks.any_enabled()) {
            fired_at = Some(tick);
            break;
        }
    }
    assert_eq!(fired_at, Some(2)); // 10 seconds: within one check interval
    let obs = TickObservations {
        whitelist: Some(WhitelistObservation {
            conforms: false,
            sessions: vec![
                session("ok", false, WhitelistState::Conforming),
                session("offender", false, WhitelistState::NonConforming),
            ],
        }),
        blacklisted: None,
        anomalous: None,
    };
    let violations = collect_policy_violations(&checks, &obs).unwrap();
    assert_eq!(uids(&violations), vec!["offender"]);
    let shown = filter_sessions_for_display(&violations, false, false);
    assert_eq!(uids(&shown), vec!["offender"]);
    let directive = violation_reaction(&violations).unwrap();
    assert_eq!(directive.exit_code, ERROR_CODE_MISMATCH);
}

#[test]
fn display_filter_modes() {
    let all = vec![
        session("g-conf", false, WhitelistState::Conforming),
        session("g-bad", false, WhitelistState::NonConforming),
        session("l-bad", true, WhitelistState::NonConforming),
    ];
    let shown = filter_sessions_for_display(&all, false, false);
    assert_eq!(uids(&shown), vec!["g-conf", "g-bad"]);
    let exceptions = filter_sessions_for_display(&all, false, true);
    assert_eq!(uids(&exceptions), vec!["g-bad"]);
    let everything = filter_sessions_for_display(&all, true, false);
    assert_eq!(uids(&everything), vec!["g-conf", "g-bad", "l-bad"]);
}

#[test]
fn session_listing_exit_codes() {
    // A failed conformance query is a server error.
    assert_eq!(
        sessions_check_exit_code(true, None, false, None, false, None),
        ERROR_CODE_SERVER_ERROR
    );
    // Non-conformance, an anomaly, or a blacklisted session is a mismatch.
    assert_eq!(
        sessions_check_exit_code(true, Some(false), false, None, false, None),
        ERROR_CODE_MISMATCH
    );
    assert_eq!(
        sessions_check_exit_code(false, None, true, Some(true), false, None),
        ERROR_CODE_MISMATCH
    );
    assert_eq!(
        sessions_check_exit_code(false, None, false, None, true, Some(true)),
        ERROR_CODE_MISMATCH
    );
    // A failed anomaly or blacklist status query counts as no finding.
    assert_eq!(
        sessions_check_exit_code(true, Some(true), true, None, true, None),
        EXIT_CODE_SUCCESS
    );
    assert_eq!(
        sessions_check_exit_code(true, Some(true), true, Some(false), true, Some(false)),
        EXIT_CODE_SUCCESS
    );
}
