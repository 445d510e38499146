//! The daemon launcher: the decisions behind detaching a worker process.
//! Spawning, daemonizing and pid files belong to the caller; this module
//! owns the prechecks, the exact argument vector the worker is re-invoked
//! with (and its reading on the worker's side), the quoted command line used
//! where processes are created from a single string, and the liveness
//! verdict over a recorded process identity.

use vstd::prelude::*;

use crate::errors::PostureError;
use crate::state::ProcessHandle;
use crate::textenc::{dec_of, parse_dec, dec_string, parse_dec_str, push_char, append_dec};
use crate::textenc::lemma_parse_dec_of;

verus! {

/// Everything a worker needs to run: credentials, scan and capture flags,
/// the whitelist, the policy-violation flags, the assistant mode, and the
/// assistant interval in seconds. Fixed at launch.
pub struct WorkerConfig {
    pub user: String,
    pub domain: String,
    pub pin: String,
    pub device_id: String,
    pub lan_scanning: bool,
    pub packet_capture: bool,
    pub whitelist_name: String,
    pub fail_on_whitelist: bool,
    pub fail_on_blacklist: bool,
    pub fail_on_anomalous: bool,
    pub cancel_on_violation: bool,
    pub local_traffic: bool,
    pub agentic_mode: String,
    pub agentic_provider: Option<String>,
    pub agentic_interval: u64,
}

/// The mathematical reading of a worker configuration.
#[verifier::ext_equal]
pub ghost struct WorkerConfigView {
    pub user: Seq<char>,
    pub domain: Seq<char>,
    pub pin: Seq<char>,
    pub device_id: Seq<char>,
    pub lan_scanning: bool,
    pub packet_capture: bool,
    pub whitelist_name: Seq<char>,
    pub fail_on_whitelist: bool,
    pub fail_on_blacklist: bool,
    pub fail_on_anomalous: bool,
    pub cancel_on_violation: bool,
    pub local_traffic: bool,
    pub agentic_mode: Seq<char>,
    pub agentic_provider: Option<Seq<char>>,
    pub agentic_interval: u64,
}

impl View for WorkerConfig {
    type V = WorkerConfigView;

    open spec fn view(&self) -> WorkerConfigView {
        WorkerConfigView {
            user: self.user@,
            domain: self.domain@,
            pin: self.pin@,
            device_id: self.device_id@,
            lan_scanning: self.lan_scanning,
            packet_capture: self.packet_capture,
            whitelist_name: self.whitelist_name@,
            fail_on_whitelist: self.fail_on_whitelist,
            fail_on_blacklist: self.fail_on_blacklist,
            fail_on_anomalous: self.fail_on_anomalous,
            cancel_on_violation: self.cancel_on_violation,
            local_traffic: self.local_traffic,
            agentic_mode: self.agentic_mode@,
            agentic_provider: match self.agentic_provider {
                Some(ref p) => Some(p@),
                None => None,
            },
            agentic_interval: self.agentic_interval,
        }
    }
}

// ---------------------------------------------------------------------------
// Prechecks.
// ---------------------------------------------------------------------------

/// Whether a launch may go ahead: whitelist enforcement without a whitelist
/// name is an input error, and a worker already reachable means no second
/// one is spawned. The caller spawns only on `Ok`.
pub open spec fn spec_launch_precheck(
    fail_on_whitelist: bool,
    whitelist_name: Seq<char>,
    worker_reachable: bool,
) -> Result<(), PostureError> {
    if fail_on_whitelist && whitelist_name.len() == 0 {
        Err(PostureError::ParamError)
    } else if worker_reachable {
        Err(PostureError::AlreadyRunning)
    } else {
        Ok(())
    }
}

/// Decides whether this launch may spawn a worker. `worker_reachable` is the
/// caller's answer from the engine's liveness probe.
pub fn launch_precheck(cfg: &WorkerConfig, worker_reachable: bool) -> (r: Result<
    (),
    PostureError,
>)
    ensures
        r == spec_launch_precheck(cfg.fail_on_whitelist, cfg.whitelist_name@, worker_reachable),
{
    if cfg.fail_on_whitelist && cfg.whitelist_name.as_str().is_empty() {
        Err(PostureError::ParamError)
    } else if worker_reachable {
        Err(PostureError::AlreadyRunning)
    } else {
        Ok(())
    }
}

/// While a worker is reachable no launch passes the precheck, whatever the
/// configuration: the launcher exits non-zero and spawns nothing. Whenever
/// the whitelist-name guard passes — that guard is checked first, as its
/// error says the input itself is bad — the refusal is exactly the
/// already-running error.
pub proof fn lemma_reachable_worker_blocks_launch(
    fail_on_whitelist: bool,
    whitelist_name: Seq<char>,
)
    ensures
        spec_launch_precheck(fail_on_whitelist, whitelist_name, true) is Err,
        crate::errors::spec_exit_code(
            spec_launch_precheck(fail_on_whitelist, whitelist_name, true)->Err_0,
        ) != crate::errors::EXIT_CODE_SUCCESS,
        !(fail_on_whitelist && whitelist_name.len() == 0) ==> spec_launch_precheck(
            fail_on_whitelist,
            whitelist_name,
            true,
        ) == Err::<(), PostureError>(PostureError::AlreadyRunning),
{
}

// ---------------------------------------------------------------------------
// The worker's argument vector: how the launcher re-invokes the executable,
// and how the worker reads itself back. The two are inverse.
// ---------------------------------------------------------------------------

/// The hidden verb under which the worker is re-invoked.
pub open spec fn spec_worker_verb() -> Seq<char> {
    "background-process"@
}

/// Booleans on the argument vector.
pub open spec fn bool_chars(b: bool) -> Seq<char> {
    if b {
        "true"@
    } else {
        "false"@
    }
}

/// A missing assistant provider is carried as the word `none`.
pub open spec fn provider_chars(p: Option<Seq<char>>) -> Seq<char> {
    match p {
        Some(s) => s,
        None => "none"@,
    }
}

/// The argument vector the launcher hands the worker, verb first.
pub open spec fn spec_worker_args(c: WorkerConfigView) -> Seq<Seq<char>> {
    seq![
        spec_worker_verb(),
        c.user,
        c.domain,
        c.pin,
        c.device_id,
        bool_chars(c.lan_scanning),
        bool_chars(c.packet_capture),
        c.whitelist_name,
        bool_chars(c.fail_on_whitelist),
        bool_chars(c.fail_on_blacklist),
        bool_chars(c.fail_on_anomalous),
        bool_chars(c.cancel_on_violation),
        bool_chars(c.local_traffic),
        c.agentic_mode,
        provider_chars(c.agentic_provider),
        dec_of(c.agentic_interval as nat),
    ]
}

/// A boolean as its argument word.
fn bool_string(b: bool) -> (r: String)
    ensures
        r@ == bool_chars(b),
{
    if b {
        String::from_str("true")
    } else {
        String::from_str("false")
    }
}

/// Builds the argument vector for re-invoking the executable in worker mode.
pub fn build_worker_args(cfg: &WorkerConfig) -> (r: Vec<String>)
    ensures
        r.deep_view() == spec_worker_args(cfg@),
{
    let mut args: Vec<String> = Vec::new();
    args.push(String::from_str("background-process"));
    args.push(cfg.user.clone());
    args.push(cfg.domain.clone());
    args.push(cfg.pin.clone());
    args.push(cfg.device_id.clone());
    args.push(bool_string(cfg.lan_scanning));
    args.push(bool_string(cfg.packet_capture));
    args.push(cfg.whitelist_name.clone());
    args.push(bool_string(cfg.fail_on_whitelist));
    args.push(bool_string(cfg.fail_on_blacklist));
    args.push(bool_string(cfg.fail_on_anomalous));
    args.push(bool_string(cfg.cancel_on_violation));
    args.push(bool_string(cfg.local_traffic));
    args.push(cfg.agentic_mode.clone());
    match &cfg.agentic_provider {
        Some(p) => args.push(p.clone()),
        None => args.push(String::from_str("none")),
    }
    args.push(dec_string(cfg.agentic_interval));
    proof {
        assert(args.deep_view() =~= spec_worker_args(cfg@));
    }
    args
}

/// Reads a boolean argument word.
pub open spec fn spec_parse_bool(s: Seq<char>) -> Option<bool> {
    if s == bool_chars(true) {
        Some(true)
    } else if s == bool_chars(false) {
        Some(false)
    } else {
        None
    }
}

fn parse_bool_arg(s: &String) -> (r: Option<bool>)
    ensures
        r == spec_parse_bool(s@),
{
    let t = String::from_str("true");
    let f = String::from_str("false");
    if *s == t {
        Some(true)
    } else if *s == f {
        Some(false)
    } else {
        None
    }
}

/// Reads a worker configuration back off the argument vector; `None` where
/// the vector is not one the launcher builds.
pub open spec fn spec_parse_worker_args(a: Seq<Seq<char>>) -> Option<WorkerConfigView> {
    if a.len() != 16 || a[0] != spec_worker_verb() {
        None
    } else {
        match (
            spec_parse_bool(a[5]),
            spec_parse_bool(a[6]),
            spec_parse_bool(a[8]),
            spec_parse_bool(a[9]),
            spec_parse_bool(a[10]),
            spec_parse_bool(a[11]),
            spec_parse_bool(a[12]),
            parse_dec(a[15]),
        ) {
            (
                Some(lan_scanning),
                Some(packet_capture),
                Some(fail_on_whitelist),
                Some(fail_on_blacklist),
                Some(fail_on_anomalous),
                Some(cancel_on_violation),
                Some(local_traffic),
                Some(interval),
            ) => if interval > u64::MAX {
                None
            } else {
                Some(
                    WorkerConfigView {
                        user: a[1],
                        domain: a[2],
                        pin: a[3],
                        device_id: a[4],
                        lan_scanning,
                        packet_capture,
                        whitelist_name: a[7],
                        fail_on_whitelist,
                        fail_on_blacklist,
                        fail_on_anomalous,
                        cancel_on_violation,
                        local_traffic,
                        agentic_mode: a[13],
                        agentic_provider: if a[14] == "none"@ {
                            None
                        } else {
                            Some(a[14])
                        },
                        agentic_interval: interval as u64,
                    },
                )
            },
            _ => None,
        }
    }
}

/// Reads the worker's own argument vector back into its configuration.
pub fn parse_worker_args(args: &Vec<String>) -> (r: Option<WorkerConfig>)
    ensures
        match r {
            Some(cfg) => spec_parse_worker_args(args.deep_view()) == Some(cfg@),
            None => spec_parse_worker_args(args.deep_view()) is None,
        },
{
    if args.len() != 16 {
        return None;
    }
    let verb = String::from_str("background-process");
    if !(args[0] == verb) {
        return None;
    }
    let lan_scanning = match parse_bool_arg(&args[5]) {
        Some(b) => b,
        None => {
            return None;
        },
    };
    let packet_capture = match parse_bool_arg(&args[6]) {
        Some(b) => b,
        None => {
            return None;
        },
    };
    let fail_on_whitelist = match parse_bool_arg(&args[8]) {
        Some(b) => b,
        None => {
            return None;
        },
    };
    let fail_on_blacklist = match parse_bool_arg(&args[9]) {
        Some(b) => b,
        None => {
            return None;
        },
    };
    let fail_on_anomalous = match parse_bool_arg(&args[10]) {
        Some(b) => b,
        None => {
            return None;
        },
    };
    let cancel_on_violation = match parse_bool_arg(&args[11]) {
        Some(b) => b,
        None => {
            return None;
        },
    };
    let local_traffic = match parse_bool_arg(&args[12]) {
        Some(b) => b,
        None => {
            return None;
        },
    };
    let agentic_interval = match parse_dec_str(args[15].as_str()) {
        Some(n) => n,
        None => {
            return None;
        },
    };
    let none_word = String::from_str("none");
    let agentic_provider: Option<String> = if args[14] == none_word {
        None
    } else {
        Some(args[14].clone())
    };
    let cfg = WorkerConfig {
        user: args[1].clone(),
        domain: args[2].clone(),
        pin: args[3].clone(),
        device_id: args[4].clone(),
        lan_scanning,
        packet_capture,
        whitelist_name: args[7].clone(),
        fail_on_whitelist,
        fail_on_blacklist,
        fail_on_anomalous,
        cancel_on_violation,
        local_traffic,
        agentic_mode: args[13].clone(),
        agentic_provider,
        agentic_interval,
    };
    proof {
        assert(args.deep_view()[0] == args@[0]@);
        assert(spec_parse_worker_args(args.deep_view()) matches Some(v) && v =~= cfg@);
    }
    Some(cfg)
}

/// Reading the argument vector undoes building it: the worker starts from
/// exactly the configuration the launcher was given. The one configuration
/// outside the law is a provider literally named `none`, which the vector
/// cannot tell from an absent provider.
pub proof fn lemma_worker_args_roundtrip(c: WorkerConfigView)
    requires
        c.agentic_provider != Some("none"@),
    ensures
        spec_parse_worker_args(spec_worker_args(c)) == Some(c),
{
    reveal_strlit("true");
    reveal_strlit("false");
    let a = spec_worker_args(c);
    assert("true"@.len() == 4 && "false"@.len() == 5);
    assert(bool_chars(false) != bool_chars(true));
    assert(spec_parse_bool(bool_chars(true)) == Some(true));
    assert(spec_parse_bool(bool_chars(false)) == Some(false));
    lemma_parse_dec_of(c.agentic_interval as nat);
    if c.agentic_provider is Some {
        assert(a[14] == c.agentic_provider->Some_0);
    }
    let got = spec_parse_worker_args(a)->Some_0;
    assert(got =~= c);
}

// ---------------------------------------------------------------------------
// The single-string command line, for process creation that takes one.
// ---------------------------------------------------------------------------

/// A value wrapped in double quotes.
pub open spec fn quoted(s: Seq<char>) -> Seq<char> {
    seq!['"'] + s + seq!['"']
}

/// The opening of the command line: executable, verb, and credentials.
pub open spec fn spec_cmdline_head(exe: Seq<char>, c: WorkerConfigView) -> Seq<char> {
    quoted(exe) + seq![' '] + spec_worker_verb() + seq![' '] + quoted(c.user) + seq![' '] + quoted(
        c.domain,
    ) + seq![' '] + quoted(c.pin) + seq![' '] + quoted(c.device_id)
}

/// The capture flags and the whitelist name.
pub open spec fn spec_cmdline_capture(c: WorkerConfigView) -> Seq<char> {
    seq![' '] + bool_chars(c.lan_scanning) + seq![' '] + bool_chars(c.packet_capture) + seq![' ']
        + quoted(c.whitelist_name)
}

/// The three check flags.
pub open spec fn spec_cmdline_checks(c: WorkerConfigView) -> Seq<char> {
    seq![' '] + bool_chars(c.fail_on_whitelist) + seq![' '] + bool_chars(c.fail_on_blacklist)
        + seq![' '] + bool_chars(c.fail_on_anomalous)
}

/// The middle of the command line: capture flags, whitelist, check flags.
pub open spec fn spec_cmdline_mid(c: WorkerConfigView) -> Seq<char> {
    spec_cmdline_capture(c) + spec_cmdline_checks(c)
}

/// The two reaction flags.
pub open spec fn spec_cmdline_reaction(c: WorkerConfigView) -> Seq<char> {
    seq![' '] + bool_chars(c.cancel_on_violation) + seq![' '] + bool_chars(c.local_traffic)
}

/// The assistant fields and the interval.
pub open spec fn spec_cmdline_assistant(c: WorkerConfigView) -> Seq<char> {
    seq![' '] + quoted(c.agentic_mode) + seq![' '] + quoted(provider_chars(c.agentic_provider))
        + seq![' '] + dec_of(c.agentic_interval as nat)
}

/// The close of the command line: reaction flags, assistant, interval.
pub open spec fn spec_cmdline_tail(c: WorkerConfigView) -> Seq<char> {
    spec_cmdline_reaction(c) + spec_cmdline_assistant(c)
}

/// The command line the launcher builds where a process is created from one
/// string: every free-text value individually quoted, flags and the interval
/// bare, fields separated by single spaces, in the order of the argument
/// vector.
pub open spec fn spec_windows_command_line(exe: Seq<char>, c: WorkerConfigView) -> Seq<char> {
    spec_cmdline_head(exe, c) + spec_cmdline_mid(c) + spec_cmdline_tail(c)
}

/// Appends a double-quoted value.
fn push_quoted(out: &mut String, s: &str)
    ensures
        final(out)@ == old(out)@ + quoted(s@),
{
    push_char(out, '"');
    out.append(s);
    push_char(out, '"');
    proof {
        assert(out@ =~= old(out)@ + quoted(s@));
    }
}

/// Appends a boolean word.
fn push_bool(out: &mut String, b: bool)
    ensures
        final(out)@ == old(out)@ + bool_chars(b),
{
    if b {
        out.append("true");
    } else {
        out.append("false");
    }
}

/// Appends the opening of the command line.
fn push_cmdline_head(out: &mut String, exe: &str, cfg: &WorkerConfig)
    ensures
        final(out)@ == old(out)@ + spec_cmdline_head(exe@, cfg@),
{
    push_quoted(out, exe);
    push_char(out, ' ');
    out.append("background-process");
    push_char(out, ' ');
    push_quoted(out, cfg.user.as_str());
    push_char(out, ' ');
    push_quoted(out, cfg.domain.as_str());
    push_char(out, ' ');
    push_quoted(out, cfg.pin.as_str());
    push_char(out, ' ');
    push_quoted(out, cfg.device_id.as_str());
    proof {
        assert(out@ =~= old(out)@ + spec_cmdline_head(exe@, cfg@));
    }
}

/// Appends the capture flags and the whitelist name.
fn push_cmdline_capture(out: &mut String, cfg: &WorkerConfig)
    ensures
        final(out)@ == old(out)@ + spec_cmdline_capture(cfg@),
{
    push_char(out, ' ');
    push_bool(out, cfg.lan_scanning);
    push_char(out, ' ');
    push_bool(out, cfg.packet_capture);
    push_char(out, ' ');
    push_quoted(out, cfg.whitelist_name.as_str());
    proof {
        assert(out@ =~= old(out)@ + spec_cmdline_capture(cfg@));
    }
}

/// Appends the three check flags.
fn push_cmdline_checks(out: &mut String, cfg: &WorkerConfig)
    ensures
        final(out)@ == old(out)@ + spec_cmdline_checks(cfg@),
{
    push_char(out, ' ');
    push_bool(out, cfg.fail_on_whitelist);
    push_char(out, ' ');
    push_bool(out, cfg.fail_on_blacklist);
    push_char(out, ' ');
    push_bool(out, cfg.fail_on_anomalous);
    proof {
        assert(out@ =~= old(out)@ + spec_cmdline_checks(cfg@));
    }
}

/// Appends the middle of the command line.
fn push_cmdline_mid(out: &mut String, cfg: &WorkerConfig)
    ensures
        final(out)@ == old(out)@ + spec_cmdline_mid(cfg@),
{
    push_cmdline_capture(out, cfg);
    push_cmdline_checks(out, cfg);
    proof {
        assert(out@ =~= old(out)@ + spec_cmdline_mid(cfg@));
    }
}

/// Appends the two reaction flags.
fn push_cmdline_reaction(out: &mut String, cfg: &WorkerConfig)
    ensures
        final(out)@ == old(out)@ + spec_cmdline_reaction(cfg@),
{
    push_char(out, ' ');
    push_bool(out, cfg.cancel_on_violation);
    push_char(out, ' ');
    push_bool(out, cfg.local_traffic);
    proof {
        assert(out@ =~= old(out)@ + spec_cmdline_reaction(cfg@));
    }
}

/// Appends the assistant fields and the interval.
fn push_cmdline_assistant(out: &mut String, cfg: &WorkerConfig)
    ensures
        final(out)@ == old(out)@ + spec_cmdline_assistant(cfg@),
{
    push_char(out, ' ');
    push_quoted(out, cfg.agentic_mode.as_str());
    push_char(out, ' ');
    match &cfg.agentic_provider {
        Some(p) => push_quoted(out, p.as_str()),
        None => push_quoted(out, "none"),
    }
    push_char(out, ' ');
    append_dec(out, cfg.agentic_interval);
    proof {
        assert(out@ =~= old(out)@ + spec_cmdline_assistant(cfg@));
    }
}

/// Appends the close of the command line.
fn push_cmdline_tail(out: &mut String, cfg: &WorkerConfig)
    ensures
        final(out)@ == old(out)@ + spec_cmdline_tail(cfg@),
{
    push_cmdline_reaction(out, cfg);
    push_cmdline_assistant(out, cfg);
    proof {
        assert(out@ =~= old(out)@ + spec_cmdline_tail(cfg@));
    }
}

/// Builds the single-string command line for the worker.
pub fn build_windows_command_line(exe: &String, cfg: &WorkerConfig) -> (r: String)
    ensures
        r@ == spec_windows_command_line(exe@, cfg@),
{
    let mut out = String::new();
    push_cmdline_head(&mut out, exe.as_str(), cfg);
    push_cmdline_mid(&mut out, cfg);
    push_cmdline_tail(&mut out, cfg);
    proof {
        assert(out@ =~= spec_windows_command_line(exe@, cfg@));
    }
    out
}

// ---------------------------------------------------------------------------
// Liveness over a recorded identity.
// ---------------------------------------------------------------------------

/// What a liveness check concludes from the recorded handle and the process
/// table.
#[derive(Clone, Copy, Debug, PartialEq, Eq, Structural)]
pub enum LivenessVerdict {
    /// Nothing was recorded: no worker to speak of.
    NoWorkerRecorded,
    /// The recorded process is alive under this id.
    WorkerAlive { pid: u32 },
    /// A process was recorded but is gone: the record is stale and the
    /// caller clears the store rather than erroring.
    StaleRecordClear,
}

/// The verdict owed for a recorded handle, given whether the process table
/// still shows its id. The stale case is self-healing by design: a crashed
/// worker must not leave "running" state behind.
pub open spec fn spec_liveness_verdict(handle: ProcessHandle, pid_alive: bool) -> LivenessVerdict {
    match handle {
        ProcessHandle::Absent => LivenessVerdict::NoWorkerRecorded,
        ProcessHandle::Posix { pid } => if pid_alive {
            LivenessVerdict::WorkerAlive { pid }
        } else {
            LivenessVerdict::StaleRecordClear
        },
        ProcessHandle::Windows { pid, .. } => if pid_alive {
            LivenessVerdict::WorkerAlive { pid }
        } else {
            LivenessVerdict::StaleRecordClear
        },
    }
}

/// Decides what a recorded identity means now. `pid_alive` is the caller's
/// process-table answer for the recorded id; it is ignored when nothing was
/// recorded.
pub fn liveness_verdict(handle: &ProcessHandle, pid_alive: bool) -> (r: LivenessVerdict)
    ensures
        r == spec_liveness_verdict(*handle, pid_alive),
{
    match handle {
        ProcessHandle::Absent => LivenessVerdict::NoWorkerRecorded,
        ProcessHandle::Posix { pid } => if pid_alive {
            LivenessVerdict::WorkerAlive { pid: *pid }
        } else {
            LivenessVerdict::StaleRecordClear
        },
        ProcessHandle::Windows { pid, .. } => if pid_alive {
            LivenessVerdict::WorkerAlive { pid: *pid }
        } else {
            LivenessVerdict::StaleRecordClear
        },
    }
}

} // verus!
