use edamame_posture::errors::{exit_code, PostureError, EXIT_CODE_SUCCESS};
use edamame_posture::launcher::{
    build_windows_command_line, build_worker_args, launch_precheck, liveness_verdict,
    parse_worker_args, LivenessVerdict, WorkerConfig,
};
use edamame_posture::state::ProcessHandle;

fn sample_config() -> WorkerConfig {
    WorkerConfig {
        user: "runner".to_string(),
        domain: "example.com".to_string(),
        pin: "123456".to_string(),
        device_id: "ci-node".to_string(),
        lan_scanning: true,
        packet_capture: false,
        whitelist_name: "custom_whitelist".to_string(),
        fail_on_whitelist: true,
        fail_on_blacklist: false,
        fail_on_anomalous: false,
        cancel_on_violation: true,
        local_traffic: false,
        agentic_mode: "auto".to_string(),
        agentic_provider: Some("ollama".to_string()),
        agentic_interval: 600,
    }
}

#[test]
fn reachable_worker_blocks_a_second_launch() {
    // The precheck refuses, the exit is non-zero, and the caller spawns
    // nothing: no second worker can come out of this.
    let r = launch_precheck(&sample_config(), true);
    assert_eq!(r, Err(PostureError::AlreadyRunning));
    assert_ne!(exit_code(PostureError::AlreadyRunning), EXIT_CODE_SUCCESS);
}

#[test]
fn whitelist_enforcement_needs_a_whitelist_name() {
    let mut cfg = sample_config();
    cfg.whitelist_name = String::new();
    assert_eq!(launch_precheck(&cfg, false), Err(PostureError::ParamError));
    // The input error is reported even before the liveness probe matters.
    assert_eq!(launch_precheck(&cfg, true), Err(PostureError::ParamError));
}

#[test]
fn sound_launch_passes_the_precheck() {
    assert_eq!(launch_precheck(&sample_config(), false), Ok(()));
}

#[test]
fn worker_args_round_trip() {
    let cfg = sample_config();
    let args = build_worker_args(&cfg);
    assert_eq!(args.len(), 16);
    assert_eq!(args[0], "background-process");
    let parsed = parse_worker_args(&args).expect("built args must parse");
    assert_eq!(parsed.user, cfg.user);
    assert_eq!(parsed.domain, cfg.domain);
    assert_eq!(parsed.pin, cfg.pin);
    assert_eq!(parsed.device_id, cfg.device_id);
    assert_eq!(parsed.lan_scanning, cfg.lan_scanning);
    assert_eq!(parsed.packet_capture, cfg.packet_capture);
    assert_eq!(parsed.whitelist_name, cfg.whitelist_name);
    assert_eq!(parsed.fail_on_whitelist, cfg.fail_on_whitelist);
    assert_eq!(parsed.fail_on_blacklist, cfg.fail_on_blacklist);
    assert_eq!(parsed.fail_on_anomalous, cfg.fail_on_anomalous);
    assert_eq!(parsed.cancel_on_violation, cfg.cancel_on_violation);
    assert_eq!(parsed.local_traffic, cfg.local_traffic);
    assert_eq!(parsed.agentic_mode, cfg.agentic_mode);
    assert_eq!(parsed.agentic_provider, cfg.agentic_provider);
    assert_eq!(parsed.agentic_interval, cfg.agentic_interval);
}

#[test]
fn absent_provider_rides_as_the_word_none() {
    let mut cfg = sample_config();
    cfg.agentic_provider = None;
    let args = build_worker_args(&cfg);
    assert_eq!(args[14], "none");
    let parsed = parse_worker_args(&args).unwrap();
    assert_eq!(parsed.agentic_provider, None);
}

#[test]
fn malformed_argument_vectors_are_refused() {
    let cfg = sample_config();
    let good = build_worker_args(&cfg);

    let mut short = good.clone();
    short.pop();
    assert!(parse_worker_args(&short).is_none());

    let mut wrong_verb = good.clone();
    wrong_verb[0] = "foreground-process".to_string();
    assert!(parse_worker_args(&wrong_verb).is_none());

    let mut bad_flag = good.clone();
    bad_flag[5] = "yes".to_string();
    assert!(parse_worker_args(&bad_flag).is_none());

    let mut bad_interval = good.clone();
    bad_interval[15] = "10s".to_string();
    assert!(parse_worker_args(&bad_interval).is_none());
}

#[test]
fn command_line_quotes_every_text_field() {
    let cfg = sample_config();
    let exe = "C:\\tools\\posture.exe".to_string();
    let line = build_windows_command_line(&exe, &cfg);
    assert_eq!(
        line,
        "\"C:\\tools\\posture.exe\" background-process \"runner\" \"example.com\" \
         \"123456\" \"ci-node\" true false \"custom_whitelist\" true false false true false \
         \"auto\" \"ollama\" 600"
    );
}

#[test]
fn command_line_writes_none_for_absent_provider() {
    let mut cfg = sample_config();
    cfg.agentic_provider = None;
    cfg.agentic_interval = 0;
    let line = build_windows_command_line(&"p".to_string(), &cfg);
    assert!(line.ends_with("\"auto\" \"none\" 0"));
}

#[test]
fn liveness_dispatches_on_the_recorded_handle() {
    assert_eq!(
        liveness_verdict(&ProcessHandle::Absent, true),
        LivenessVerdict::NoWorkerRecorded
    );
    assert_eq!(
        liveness_verdict(&ProcessHandle::Posix { pid: 41 }, true),
        LivenessVerdict::WorkerAlive { pid: 41 }
    );
    assert_eq!(
        liveness_verdict(&ProcessHandle::Posix { pid: 41 }, false),
        LivenessVerdict::StaleRecordClear
    );
    assert_eq!(
        liveness_verdict(&ProcessHandle::Windows { pid: 9, raw_handle: 77 }, false),
        LivenessVerdict::StaleRecordClear
    );
}
