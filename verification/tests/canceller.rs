use edamame_posture::canceller::{
    command_outcome, plan_cancellation, plan_idle_outcome, resolve_cancel_script_path,
    CancellationOutcome, CancellationPlan, CiEnvironment, CredentialName,
};

fn bare_environment() -> CiEnvironment {
    CiEnvironment {
        github_actions: false,
        github_run_id: None,
        github_repository: None,
        github_token: None,
        gitlab_ci: false,
        gitlab_project_id: None,
        gitlab_pipeline_id: None,
        gitlab_token: None,
    }
}

fn github_environment() -> CiEnvironment {
    CiEnvironment {
        github_actions: true,
        github_run_id: Some("987654".to_string()),
        github_repository: Some("acme/widgets".to_string()),
        github_token: Some("token-test-value".to_string()),
        ..bare_environment()
    }
}

#[test]
fn no_ci_and_no_script_is_unsupported_not_an_error() {
    let path = resolve_cancel_script_path(None, Some("/home/runner".to_string()));
    let plan = plan_cancellation(path, false, bare_environment());
    assert!(matches!(plan, CancellationPlan::NoSupportedCi));
    let outcome = plan_idle_outcome(&plan);
    assert!(matches!(outcome, Some(CancellationOutcome::EnvironmentUnsupported)));
}

#[test]
fn script_path_resolution() {
    assert_eq!(
        resolve_cancel_script_path(Some("/ci/cancel.sh".to_string()), Some("/home/r".to_string())),
        "/ci/cancel.sh"
    );
    assert_eq!(
        resolve_cancel_script_path(None, Some("/home/runner".to_string())),
        "/home/runner/cancel_pipeline.sh"
    );
    assert_eq!(resolve_cancel_script_path(None, None), "/tmp/cancel_pipeline.sh");
}

#[test]
fn existing_script_takes_priority_over_ci_detection() {
    let plan = plan_cancellation("/home/r/cancel_pipeline.sh".to_string(), true, github_environment());
    match plan {
        CancellationPlan::RunScript { path } => assert_eq!(path, "/home/r/cancel_pipeline.sh"),
        _ => panic!("an existing script must be preferred"),
    }
}

#[test]
fn github_environment_plans_a_run_cancellation() {
    let plan = plan_cancellation("/nowhere".to_string(), false, github_environment());
    match plan {
        CancellationPlan::CancelGithubRun { run_id, repository, token } => {
            assert_eq!(run_id, "987654");
            assert_eq!(repository, "acme/widgets");
            assert_eq!(token.as_deref(), Some("token-test-value"));
        }
        _ => panic!("a GitHub environment must plan a run cancellation"),
    }
}

#[test]
fn github_without_token_still_attempts() {
    let mut env = github_environment();
    env.github_token = None;
    let plan = plan_cancellation("/nowhere".to_string(), false, env);
    match plan {
        CancellationPlan::CancelGithubRun { token, .. } => assert!(token.is_none()),
        _ => panic!("a missing token only weakens the attempt"),
    }
}

#[test]
fn github_missing_run_id_is_a_missing_credential() {
    let mut env = github_environment();
    env.github_run_id = None;
    let plan = plan_cancellation("/nowhere".to_string(), false, env);
    match &plan {
        CancellationPlan::MissingCredential { name } => {
            assert_eq!(*name, CredentialName::GithubRunId);
            assert_eq!(name.variable(), "GITHUB_RUN_ID");
        }
        _ => panic!("a missing run id cannot be cancelled"),
    }
    match plan_idle_outcome(&plan) {
        Some(CancellationOutcome::MissingCredential { name }) => {
            assert_eq!(name, CredentialName::GithubRunId);
        }
        _ => panic!("a missing credential settles without running anything"),
    }
}

#[test]
fn gitlab_environment_plans_a_pipeline_cancellation() {
    let env = CiEnvironment {
        gitlab_ci: true,
        gitlab_project_id: Some("1234".to_string()),
        gitlab_pipeline_id: Some("5678".to_string()),
        gitlab_token: Some("token-test-value".to_string()),
        ..bare_environment()
    };
    let plan = plan_cancellation("/nowhere".to_string(), false, env);
    match plan {
        CancellationPlan::CancelGitlabPipeline { project_id, pipeline_id, token } => {
            assert_eq!(project_id, "1234");
            assert_eq!(pipeline_id, "5678");
            assert_eq!(token, "token-test-value");
        }
        _ => panic!("a GitLab environment must plan a pipeline cancellation"),
    }
}

#[test]
fn gitlab_missing_token_is_a_missing_credential() {
    let env = CiEnvironment {
        gitlab_ci: true,
        gitlab_project_id: Some("1234".to_string()),
        gitlab_pipeline_id: Some("5678".to_string()),
        gitlab_token: None,
        ..bare_environment()
    };
    let plan = plan_cancellation("/nowhere".to_string(), false, env);
    match plan {
        CancellationPlan::MissingCredential { name } => {
            assert_eq!(name, CredentialName::GitlabToken);
            assert_eq!(name.variable(), "GITLAB_TOKEN");
        }
        _ => panic!("a missing token cannot authenticate a cancellation"),
    }
}

#[test]
fn command_status_reads_as_outcome() {
    assert!(matches!(command_outcome(Some(0)), CancellationOutcome::Success));
    match command_outcome(Some(3)) {
        CancellationOutcome::ScriptFailed { exit_code } => assert_eq!(exit_code, Some(3)),
        _ => panic!("a nonzero status is a failure"),
    }
    match command_outcome(None) {
        CancellationOutcome::ScriptFailed { exit_code } => assert_eq!(exit_code, None),
        _ => panic!("a command that never ran is a failure"),
    }
}

#[test]
fn command_plans_settle_nothing_idly() {
    let plan = plan_cancellation("/s".to_string(), true, bare_environment());
    assert!(plan_idle_outcome(&plan).is_none());
}
