//! The CI pipeline canceller: a best-effort side effect asking a CI system to
//! abort the running pipeline once a violation is confirmed. This module
//! plans the action and names its outcome; the caller reads environment
//! variables, checks for the script file, and runs commands, handing plain
//! values in and the exit status back.
//!
//! Priority order: a cancellation script when one exists (override path, or
//! the well-known file under the home directory), else the first supported CI
//! system detected from its environment variables, else no action. Missing
//! identifiers or tokens are warnings, not failures: the monitor's own exit
//! is the enforcement; cancellation is an optimization.

use vstd::prelude::*;

verus! {

/// What the caller found in the process environment, already resolved to
/// plain values: each field holds the variable's value, or `None` where it
/// is unset. The GitHub token is the token-file contents when that file was
/// named and readable, else the token variable.
pub struct CiEnvironment {
    /// `GITHUB_ACTIONS` is set.
    pub github_actions: bool,
    /// `GITHUB_RUN_ID`.
    pub github_run_id: Option<String>,
    /// `GITHUB_REPOSITORY`.
    pub github_repository: Option<String>,
    /// Resolved GitHub token, from `GH_TOKEN_FILE` or `GH_TOKEN`.
    pub github_token: Option<String>,
    /// `GITLAB_CI` is set.
    pub gitlab_ci: bool,
    /// `CI_PROJECT_ID`.
    pub gitlab_project_id: Option<String>,
    /// `CI_PIPELINE_ID`.
    pub gitlab_pipeline_id: Option<String>,
    /// `GITLAB_TOKEN`.
    pub gitlab_token: Option<String>,
}

/// A required identifier or token, named by the environment variable that
/// should have supplied it.
#[derive(Clone, Copy, Debug, PartialEq, Eq, Structural)]
pub enum CredentialName {
    GithubRunId,
    GithubRepository,
    GitlabProjectId,
    GitlabPipelineId,
    GitlabToken,
}

impl CredentialName {
    /// The environment variable this credential comes from.
    pub fn variable(&self) -> (r: &'static str)
        ensures
            self is GithubRunId ==> r@ == "GITHUB_RUN_ID"@,
            self is GithubRepository ==> r@ == "GITHUB_REPOSITORY"@,
            self is GitlabProjectId ==> r@ == "CI_PROJECT_ID"@,
            self is GitlabPipelineId ==> r@ == "CI_PIPELINE_ID"@,
            self is GitlabToken ==> r@ == "GITLAB_TOKEN"@,
    {
        match self {
            CredentialName::GithubRunId => "GITHUB_RUN_ID",
            CredentialName::GithubRepository => "GITHUB_REPOSITORY",
            CredentialName::GitlabProjectId => "CI_PROJECT_ID",
            CredentialName::GitlabPipelineId => "CI_PIPELINE_ID",
            CredentialName::GitlabToken => "GITLAB_TOKEN",
        }
    }
}

/// The action the caller is to perform.
pub enum CancellationPlan {
    /// Run the cancellation script at this path with the reason as argument.
    RunScript { path: String },
    /// Cancel this GitHub Actions run; without a token the attempt is still
    /// made and may fail on authentication.
    CancelGithubRun { run_id: String, repository: String, token: Option<String> },
    /// Cancel this GitLab pipeline.
    CancelGitlabPipeline { project_id: String, pipeline_id: String, token: String },
    /// No script and no supported CI environment: nothing to do.
    NoSupportedCi,
    /// A supported CI system was detected but this identifier or token was
    /// missing; nothing can be run.
    MissingCredential { name: CredentialName },
}

/// How the attempt ended, as reported to the monitor.
pub enum CancellationOutcome {
    /// The action ran and reported success.
    Success,
    /// The script or command failed, or could not be started; the exit code,
    /// where the process produced one.
    ScriptFailed { exit_code: Option<i32> },
    /// No supported CI environment was present; expected outside CI and not
    /// an error.
    EnvironmentUnsupported,
    /// A required identifier or token was missing; logged as a warning.
    MissingCredential { name: CredentialName },
}

/// The default script location relative to the home directory.
pub open spec fn spec_default_script_suffix() -> Seq<char> {
    "/cancel_pipeline.sh"@
}

/// Where the cancellation script is looked for: the override path when set,
/// else the well-known file under the home directory, with the temporary
/// directory standing in when no home is known.
pub open spec fn spec_cancel_script_path(
    override_path: Option<Seq<char>>,
    home: Option<Seq<char>>,
) -> Seq<char> {
    match override_path {
        Some(p) => p,
        None => match home {
            Some(h) => h + spec_default_script_suffix(),
            None => "/tmp"@ + spec_default_script_suffix(),
        },
    }
}

/// Resolves the script path from the two environment values.
pub fn resolve_cancel_script_path(override_path: Option<String>, home: Option<String>) -> (r:
    String)
    ensures
        r@ == spec_cancel_script_path(
            match override_path {
                Some(ref p) => Some(p@),
                None => None,
            },
            match home {
                Some(ref h) => Some(h@),
                None => None,
            },
        ),
{
    match override_path {
        Some(p) => p,
        None => {
            let mut base = match home {
                Some(h) => h,
                None => String::from_str("/tmp"),
            };
            base.append("/cancel_pipeline.sh");
            base
        },
    }
}

/// The planned action, in priority order. The plan is a pure reading of what
/// the caller found; it runs nothing itself.
pub open spec fn spec_plan_cancellation(
    script_path: String,
    script_exists: bool,
    env: CiEnvironment,
) -> CancellationPlan {
    if script_exists {
        CancellationPlan::RunScript { path: script_path }
    } else if env.github_actions {
        match env.github_run_id {
            None => CancellationPlan::MissingCredential { name: CredentialName::GithubRunId },
            Some(run_id) => match env.github_repository {
                None => CancellationPlan::MissingCredential {
                    name: CredentialName::GithubRepository,
                },
                Some(repository) => CancellationPlan::CancelGithubRun {
                    run_id,
                    repository,
                    token: env.github_token,
                },
            },
        }
    } else if env.gitlab_ci {
        match env.gitlab_project_id {
            None => CancellationPlan::MissingCredential { name: CredentialName::GitlabProjectId },
            Some(project_id) => match env.gitlab_pipeline_id {
                None => CancellationPlan::MissingCredential {
                    name: CredentialName::GitlabPipelineId,
                },
                Some(pipeline_id) => match env.gitlab_token {
                    None => CancellationPlan::MissingCredential {
                        name: CredentialName::GitlabToken,
                    },
                    Some(token) => CancellationPlan::CancelGitlabPipeline {
                        project_id,
                        pipeline_id,
                        token,
                    },
                },
            },
        }
    } else {
        CancellationPlan::NoSupportedCi
    }
}

/// Plans the cancellation from what the caller found. Runs nothing.
pub fn plan_cancellation(script_path: String, script_exists: bool, env: CiEnvironment) -> (r:
    CancellationPlan)
    ensures
        r == spec_plan_cancellation(script_path, script_exists, env),
{
    if script_exists {
        CancellationPlan::RunScript { path: script_path }
    } else if env.github_actions {
        match env.github_run_id {
            None => CancellationPlan::MissingCredential { name: CredentialName::GithubRunId },
            Some(run_id) => match env.github_repository {
                None => CancellationPlan::MissingCredential {
                    name: CredentialName::GithubRepository,
                },
                Some(repository) => CancellationPlan::CancelGithubRun {
                    run_id,
                    repository,
                    token: env.github_token,
                },
            },
        }
    } else if env.gitlab_ci {
        match env.gitlab_project_id {
            None => CancellationPlan::MissingCredential { name: CredentialName::GitlabProjectId },
            Some(project_id) => match env.gitlab_pipeline_id {
                None => CancellationPlan::MissingCredential {
                    name: CredentialName::GitlabPipelineId,
                },
                Some(pipeline_id) => match env.gitlab_token {
                    None => CancellationPlan::MissingCredential {
                        name: CredentialName::GitlabToken,
                    },
                    Some(token) => CancellationPlan::CancelGitlabPipeline {
                        project_id,
                        pipeline_id,
                        token,
                    },
                },
            },
        }
    } else {
        CancellationPlan::NoSupportedCi
    }
}

/// The outcome a plan settles without running anything: nothing to do, or a
/// missing credential. The three command plans settle only by running.
pub open spec fn spec_plan_idle_outcome(plan: CancellationPlan) -> Option<CancellationOutcome> {
    match plan {
        CancellationPlan::NoSupportedCi => Some(CancellationOutcome::EnvironmentUnsupported),
        CancellationPlan::MissingCredential { name } => Some(
            CancellationOutcome::MissingCredential { name },
        ),
        _ => None,
    }
}

/// Settles the plans that need no command; `None` means the caller must run
/// the planned command and read its status.
pub fn plan_idle_outcome(plan: &CancellationPlan) -> (r: Option<CancellationOutcome>)
    ensures
        r == spec_plan_idle_outcome(*plan),
{
    match plan {
        CancellationPlan::NoSupportedCi => Some(CancellationOutcome::EnvironmentUnsupported),
        CancellationPlan::MissingCredential { name } => Some(
            CancellationOutcome::MissingCredential { name: *name },
        ),
        _ => None,
    }
}

/// What a command's exit status means: zero is success, anything else — a
/// nonzero code, or no status because the command could not run — is a
/// failure carrying whatever code there was.
pub open spec fn spec_command_outcome(status: Option<i32>) -> CancellationOutcome {
    match status {
        Some(code) => if code == 0 {
            CancellationOutcome::Success
        } else {
            CancellationOutcome::ScriptFailed { exit_code: Some(code) }
        },
        None => CancellationOutcome::ScriptFailed { exit_code: None },
    }
}

/// Reads a command's exit status as the cancellation outcome.
pub fn command_outcome(status: Option<i32>) -> (r: CancellationOutcome)
    ensures
        r == spec_command_outcome(status),
{
    match status {
        Some(code) => if code == 0 {
            CancellationOutcome::Success
        } else {
            CancellationOutcome::ScriptFailed { exit_code: Some(code) }
        },
        None => CancellationOutcome::ScriptFailed { exit_code: None },
    }
}

/// With no script present and no supported CI variables set, the canceller
/// plans no action and settles as environment-unsupported: a no-op, not an
/// error, and nothing that could fail up to the monitor.
pub proof fn lemma_no_ci_is_unsupported(script_path: String, env: CiEnvironment)
    requires
        !env.github_actions,
        !env.gitlab_ci,
    ensures
        spec_plan_cancellation(script_path, false, env) == CancellationPlan::NoSupportedCi,
        spec_plan_idle_outcome(spec_plan_cancellation(script_path, false, env)) == Some(
            CancellationOutcome::EnvironmentUnsupported,
        ),
{
}

} // verus!
