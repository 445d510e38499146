//! The policy violation monitor: the loop the worker runs on a fixed cadence
//! to detect whitelist, blacklist and anomaly violations in live traffic and
//! react. The worker's housekeeping loop owns the sleeping and the engine
//! queries; this module owns the cadence, the violation set, and the
//! reaction, so what triggers a halt is exactly pinned down.

use vstd::prelude::*;

use crate::canceller::CancellationOutcome;
use crate::errors::{ERROR_CODE_MISMATCH, ERROR_CODE_SERVER_ERROR, EXIT_CODE_SUCCESS};
use crate::state::{SessionRecord, SessionView, WhitelistState};

verus! {

/// Seconds of housekeeping sleep between ticks.
pub const HOUSEKEEPING_SLEEP_SECS: u64 = 5;

/// Seconds between two violation checks. The check counter accumulates
/// across housekeeping sleeps, so more housekeeping work never silently slows
/// violation detection down.
pub const VIOLATION_CHECK_INTERVAL_SECS: u64 = 10;

/// The cadence accumulator: seconds of housekeeping sleep since the last
/// violation check.
pub struct MonitorClock {
    pub elapsed: u64,
}

impl MonitorClock {
    /// The accumulator never reaches a full check interval between ticks.
    pub open spec fn wf(self) -> bool {
        self.elapsed < VIOLATION_CHECK_INTERVAL_SECS
    }

    /// A fresh clock, one full interval away from its first check.
    pub fn new() -> (r: MonitorClock)
        ensures
            r.wf(),
            r.elapsed == 0,
    {
        MonitorClock { elapsed: 0 }
    }

    /// Accounts one housekeeping sleep and says whether a violation check
    /// fires now. `checks_enabled` says whether any violation check is
    /// enabled at all (`PolicyChecks::any_enabled`): while one is, the check
    /// fires on every full check interval — whether or not pipeline
    /// cancellation is also armed — and the clock resets on firing; with no
    /// check enabled there is nothing to fire for and the clock idles.
    pub fn tick(&mut self, checks_enabled: bool) -> (fired: bool)
        requires
            old(self).wf(),
        ensures
            final(self).wf(),
            fired == (checks_enabled && old(self).elapsed + HOUSEKEEPING_SLEEP_SECS
                >= VIOLATION_CHECK_INTERVAL_SECS),
            fired ==> final(self).elapsed == 0,
            !fired && checks_enabled ==> final(self).elapsed == old(self).elapsed
                + HOUSEKEEPING_SLEEP_SECS,
            !checks_enabled ==> final(self).elapsed == 0,
    {
        if !checks_enabled {
            self.elapsed = 0;
            return false;
        }
        let next = self.elapsed + HOUSEKEEPING_SLEEP_SECS;
        if next >= VIOLATION_CHECK_INTERVAL_SECS {
            self.elapsed = 0;
            true
        } else {
            self.elapsed = next;
            false
        }
    }
}

/// Which checks one worker runs, fixed at launch.
#[derive(Clone, Copy, Debug, PartialEq, Eq, Structural)]
pub struct PolicyChecks {
    pub fail_on_whitelist: bool,
    pub fail_on_blacklist: bool,
    pub fail_on_anomalous: bool,
    /// Local traffic is excluded from every check unless this is set.
    pub include_local_traffic: bool,
}

impl PolicyChecks {
    /// Whether any violation check is enabled: what arms the check cadence.
    pub open spec fn spec_any_enabled(self) -> bool {
        self.fail_on_whitelist || self.fail_on_blacklist || self.fail_on_anomalous
    }

    /// Whether any violation check is enabled.
    pub fn any_enabled(&self) -> (r: bool)
        ensures
            r == self.spec_any_enabled(),
    {
        self.fail_on_whitelist || self.fail_on_blacklist || self.fail_on_anomalous
    }
}

/// What the whitelist conformance query answered, with the session list
/// fetched when conformance failed.
pub struct WhitelistObservation {
    pub conforms: bool,
    pub sessions: Vec<SessionRecord>,
}

/// What one tick's engine queries answered; `None` is a failed query. Only
/// the queries of enabled checks are consulted.
pub struct TickObservations {
    pub whitelist: Option<WhitelistObservation>,
    pub blacklisted: Option<Vec<SessionRecord>>,
    pub anomalous: Option<Vec<SessionRecord>>,
}

/// The query whose failure abandoned a tick.
#[derive(Clone, Copy, Debug, PartialEq, Eq, Structural)]
pub enum MonitorCheckError {
    WhitelistUnavailable,
    BlacklistUnavailable,
    AnomalousUnavailable,
}

/// Sessions surviving the local-traffic exclusion.
pub open spec fn global_pred(include_local: bool) -> spec_fn(SessionView) -> bool {
    |s: SessionView| include_local || !s.is_local
}

/// Sessions that violate the whitelist: not excluded as local, and not
/// conforming.
pub open spec fn whitelist_violation_pred(include_local: bool) -> spec_fn(SessionView) -> bool {
    |s: SessionView|
        (include_local || !s.is_local) && s.whitelist_state != WhitelistState::Conforming
}

/// The whitelist check's contribution: nothing when the check is off, the
/// query failed, or conformance held; else the non-conforming sessions.
pub open spec fn spec_whitelist_violations(checks: PolicyChecks, obs: TickObservations) -> Seq<
    SessionView,
> {
    if !checks.fail_on_whitelist {
        Seq::empty()
    } else {
        match obs.whitelist {
            None => Seq::empty(),
            Some(w) => if w.conforms {
                Seq::empty()
            } else {
                w.sessions.deep_view().filter(
                    whitelist_violation_pred(checks.include_local_traffic),
                )
            },
        }
    }
}

/// The blacklist check's contribution: the blacklisted sessions, less
/// excluded local traffic.
pub open spec fn spec_blacklist_violations(checks: PolicyChecks, obs: TickObservations) -> Seq<
    SessionView,
> {
    if !checks.fail_on_blacklist {
        Seq::empty()
    } else {
        match obs.blacklisted {
            None => Seq::empty(),
            Some(v) => v.deep_view().filter(global_pred(checks.include_local_traffic)),
        }
    }
}

/// The anomaly check's contribution, shaped as the blacklist one.
pub open spec fn spec_anomalous_violations(checks: PolicyChecks, obs: TickObservations) -> Seq<
    SessionView,
> {
    if !checks.fail_on_anomalous {
        Seq::empty()
    } else {
        match obs.anomalous {
            None => Seq::empty(),
            Some(v) => v.deep_view().filter(global_pred(checks.include_local_traffic)),
        }
    }
}

/// An enabled check whose query failed abandons the tick: an engine outage
/// must not pass for, nor mask, a violation.
pub open spec fn spec_tick_fails(checks: PolicyChecks, obs: TickObservations) -> bool {
    ||| checks.fail_on_whitelist && obs.whitelist is None
    ||| checks.fail_on_blacklist && obs.blacklisted is None
    ||| checks.fail_on_anomalous && obs.anomalous is None
}

/// Keeps the first record of each session identity, in discovery order.
pub open spec fn dedup_rec(ss: Seq<SessionView>, seen: Set<Seq<char>>) -> Seq<SessionView>
    decreases ss.len(),
{
    if ss.len() == 0 {
        Seq::empty()
    } else if seen.contains(ss[0].uid) {
        dedup_rec(ss.drop_first(), seen)
    } else {
        seq![ss[0]] + dedup_rec(ss.drop_first(), seen.insert(ss[0].uid))
    }
}

/// The violation set's shape: duplicates by session identity collapsed,
/// first occurrence kept, order of discovery kept.
pub open spec fn dedup_by_uid(ss: Seq<SessionView>) -> Seq<SessionView> {
    dedup_rec(ss, Set::empty())
}

/// The violation set of one tick: whitelist, blacklist and anomaly
/// contributions in that order, deduplicated by session identity.
pub open spec fn spec_tick_violations(checks: PolicyChecks, obs: TickObservations) -> Seq<
    SessionView,
> {
    dedup_by_uid(
        spec_whitelist_violations(checks, obs) + spec_blacklist_violations(checks, obs)
            + spec_anomalous_violations(checks, obs),
    )
}

/// No two records of a deduplicated sequence share an identity, and none
/// carries an identity that was already seen.
pub proof fn lemma_dedup_rec_unique(ss: Seq<SessionView>, seen: Set<Seq<char>>)
    ensures
        forall|i: int, j: int|
            0 <= i < j < dedup_rec(ss, seen).len() ==> dedup_rec(ss, seen)[i].uid != dedup_rec(
                ss,
                seen,
            )[j].uid,
        forall|i: int|
            0 <= i < dedup_rec(ss, seen).len() ==> !seen.contains(
                #[trigger] dedup_rec(ss, seen)[i].uid,
            ),
    decreases ss.len(),
{
    if ss.len() == 0 {
    } else if seen.contains(ss[0].uid) {
        lemma_dedup_rec_unique(ss.drop_first(), seen);
    } else {
        let seen2 = seen.insert(ss[0].uid);
        lemma_dedup_rec_unique(ss.drop_first(), seen2);
        let r = dedup_rec(ss, seen);
        let tail = dedup_rec(ss.drop_first(), seen2);
        assert forall|i: int, j: int| 0 <= i < j < r.len() implies r[i].uid != r[j].uid by {
            if i == 0 {
                assert(r[j] == tail[j - 1]);
                assert(!seen2.contains(tail[j - 1].uid));
            } else {
                assert(r[i] == tail[i - 1] && r[j] == tail[j - 1]);
            }
        }
        assert forall|i: int| 0 <= i < r.len() implies !seen.contains(#[trigger] r[i].uid) by {
            if i > 0 {
                assert(r[i] == tail[i - 1]);
                assert(!seen2.contains(tail[i - 1].uid));
            }
        }
    }
}

/// A violation set never lists one session identity twice: the set is
/// deduplicated by identity, whatever the checks found.
pub proof fn lemma_violation_set_identities_unique(checks: PolicyChecks, obs: TickObservations)
    ensures
        forall|i: int, j: int|
            0 <= i < j < spec_tick_violations(checks, obs).len() ==> spec_tick_violations(
                checks,
                obs,
            )[i].uid != spec_tick_violations(checks, obs)[j].uid,
{
    let combined = spec_whitelist_violations(checks, obs) + spec_blacklist_violations(checks, obs)
        + spec_anomalous_violations(checks, obs);
    lemma_dedup_rec_unique(combined, Set::empty());
}

/// Appends the records of `src` that satisfy the local-traffic exclusion and,
/// when `whitelist_only` is set, fail the whitelist.
fn push_filtered(
    dst: &mut Vec<SessionRecord>,
    src: &Vec<SessionRecord>,
    include_local: bool,
    whitelist_only: bool,
)
    ensures
        final(dst).deep_view() == old(dst).deep_view() + src.deep_view().filter(
            if whitelist_only {
                whitelist_violation_pred(include_local)
            } else {
                global_pred(include_local)
            },
        ),
{
    let ghost pred = if whitelist_only {
        whitelist_violation_pred(include_local)
    } else {
        global_pred(include_local)
    };
    let ghost dst0 = dst.deep_view();
    let n = src.len();
    let mut i: usize = 0;
    proof {
        broadcast use vstd::seq_lib::group_seq_properties;
    }
    while i < n
        invariant
            n == src.len(),
            i <= n,
            pred == (if whitelist_only {
                whitelist_violation_pred(include_local)
            } else {
                global_pred(include_local)
            }),
            dst.deep_view() == dst0 + src.deep_view().take(i as int).filter(pred),
        decreases n - i,
    {
        let rec = &src[i];
        let keep_global = include_local || !rec.is_local;
        let keep = if whitelist_only {
            keep_global && !(matches!(rec.whitelist_state, WhitelistState::Conforming))
        } else {
            keep_global
        };
        proof {
            let sv = src.deep_view();
            assert(sv.take(i as int + 1) =~= sv.take(i as int).push(sv[i as int]));
            sv.take(i as int).lemma_filter_push(sv[i as int], pred);
            assert(sv[i as int] == src[i as int]@);
            assert(keep == pred(sv[i as int]));
        }
        if keep {
            let ghost before = dst.deep_view();
            dst.push(rec.clone());
            proof {
                assert(dst.deep_view() =~= before.push(src.deep_view()[i as int]));
                assert(dst.deep_view() =~= dst0 + src.deep_view().take(i as int + 1).filter(pred));
            }
        }
        i = i + 1;
    }
    proof {
        assert(src.deep_view().take(n as int) =~= src.deep_view());
    }
}

/// Whether some record already carries this session identity.
fn contains_uid(v: &Vec<SessionRecord>, uid: &String) -> (r: bool)
    ensures
        r == exists|k: int| 0 <= k < v.deep_view().len() && v.deep_view()[k].uid == uid@,
{
    let n = v.len();
    let mut i: usize = 0;
    while i < n
        invariant
            n == v.len(),
            i <= n,
            forall|k: int| 0 <= k < i ==> v.deep_view()[k].uid != uid@,
        decreases n - i,
    {
        let same = v[i].uid == *uid;
        proof {
            assert(v.deep_view()[i as int] == v@[i as int].deep_view());
        }
        if same {
            proof {
                assert(v.deep_view()[i as int].uid == uid@);
            }
            return true;
        }
        i = i + 1;
    }
    false
}

/// Collapses duplicates by session identity, keeping first occurrences in
/// discovery order.
fn dedup_sessions(src: &Vec<SessionRecord>) -> (r: Vec<SessionRecord>)
    ensures
        r.deep_view() == dedup_by_uid(src.deep_view()),
{
    let mut out: Vec<SessionRecord> = Vec::new();
    let ghost seen = Set::<Seq<char>>::empty();
    let n = src.len();
    let mut i: usize = 0;
    proof {
        assert(out.deep_view() =~= Seq::<SessionView>::empty());
        assert(src.deep_view().skip(0) =~= src.deep_view());
        assert(dedup_by_uid(src.deep_view()) == out.deep_view() + dedup_rec(
            src.deep_view().skip(i as int),
            seen,
        ));
    }
    while i < n
        invariant
            n == src.len(),
            i <= n,
            dedup_by_uid(src.deep_view()) == out.deep_view() + dedup_rec(
                src.deep_view().skip(i as int),
                seen,
            ),
            forall|u: Seq<char>|
                #[trigger] seen.contains(u) <==> exists|k: int|
                    0 <= k < out.deep_view().len() && out.deep_view()[k].uid == u,
        decreases n - i,
    {
        let rec = &src[i];
        let ghost suffix = src.deep_view().skip(i as int);
        proof {
            assert(suffix[0] == src.deep_view()[i as int]);
            assert(suffix.drop_first() =~= src.deep_view().skip(i as int + 1));
        }
        if contains_uid(&out, &rec.uid) {
            proof {
                assert(seen.contains(suffix[0].uid));
                assert(dedup_rec(suffix, seen) == dedup_rec(suffix.drop_first(), seen));
            }
        } else {
            let ghost before = out.deep_view();
            let ghost seen_before = seen;
            out.push(rec.clone());
            proof {
                assert(!seen_before.contains(suffix[0].uid));
                assert(dedup_rec(suffix, seen_before) == seq![suffix[0]] + dedup_rec(
                    suffix.drop_first(),
                    seen_before.insert(suffix[0].uid),
                ));
                seen = seen_before.insert(suffix[0].uid);
                assert(out.deep_view() =~= before.push(suffix[0]));
                assert(before + (seq![suffix[0]] + dedup_rec(suffix.drop_first(), seen)) =~= (
                before.push(suffix[0])) + dedup_rec(suffix.drop_first(), seen));
                assert forall|u: Seq<char>| #[trigger]
                    seen.contains(u) <==> exists|k: int|
                        0 <= k < out.deep_view().len() && out.deep_view()[k].uid == u by {
                    if seen.contains(u) {
                        if u == suffix[0].uid {
                            assert(out.deep_view()[out.deep_view().len() - 1].uid == u);
                        } else {
                            let k = choose|k: int|
                                0 <= k < before.len() && #[trigger] before[k].uid == u;
                            assert(out.deep_view()[k].uid == u);
                        }
                    } else {
                        if exists|k: int|
                            0 <= k < out.deep_view().len() && #[trigger] out.deep_view()[k].uid
                                == u {
                            let k = choose|k: int|
                                0 <= k < out.deep_view().len() && #[trigger] out.deep_view()[k].uid
                                    == u;
                            if k < before.len() {
                                assert(seen_before.contains(u));
                            } else {
                                assert(out.deep_view()[k] == suffix[0]);
                            }
                            assert(false);
                        }
                    }
                }
            }
        }
        i = i + 1;
    }
    proof {
        assert(src.deep_view().skip(n as int) =~= Seq::<SessionView>::empty());
        assert(dedup_rec(Seq::<SessionView>::empty(), seen) == Seq::<SessionView>::empty());
        assert(out.deep_view() + Seq::<SessionView>::empty() =~= out.deep_view());
    }
    out
}

/// Narrows a session snapshot for display: local traffic dropped unless
/// included, and only whitelist exceptions when asked. Order is kept.
pub fn filter_sessions_for_display(
    src: &Vec<SessionRecord>,
    local_traffic: bool,
    exceptions_only: bool,
) -> (r: Vec<SessionRecord>)
    ensures
        r.deep_view() == src.deep_view().filter(
            if exceptions_only {
                whitelist_violation_pred(local_traffic)
            } else {
                global_pred(local_traffic)
            },
        ),
{
    let mut out: Vec<SessionRecord> = Vec::new();
    proof {
        assert(out.deep_view() =~= Seq::<SessionView>::empty());
    }
    push_filtered(&mut out, src, local_traffic, exceptions_only);
    out
}

/// Builds one tick's violation set from the engine's answers, or reports the
/// enabled check whose query failed — in which case the tick is abandoned and
/// counts as no violation. The set holds exactly the violating sessions of
/// the enabled checks, local traffic excluded unless included, duplicates by
/// session identity collapsed, in discovery order.
pub fn collect_policy_violations(checks: &PolicyChecks, obs: &TickObservations) -> (r: Result<
    Vec<SessionRecord>,
    MonitorCheckError,
>)
    ensures
        match r {
            Ok(vs) => !spec_tick_fails(*checks, *obs) && vs.deep_view() == spec_tick_violations(
                *checks,
                *obs,
            ),
            Err(e) => spec_tick_fails(*checks, *obs) && e == spec_tick_error(*checks, *obs),
        },
{
    let mut combined: Vec<SessionRecord> = Vec::new();
    proof {
        broadcast use vstd::seq_lib::group_seq_properties;
        assert(combined.deep_view() =~= Seq::<SessionView>::empty());
    }
    if checks.fail_on_whitelist {
        match &obs.whitelist {
            None => {
                return Err(MonitorCheckError::WhitelistUnavailable);
            },
            Some(w) => {
                if !w.conforms {
                    push_filtered(&mut combined, &w.sessions, checks.include_local_traffic, true);
                }
            },
        }
    }
    proof {
        assert(combined.deep_view() =~= spec_whitelist_violations(*checks, *obs));
    }
    if checks.fail_on_blacklist {
        match &obs.blacklisted {
            None => {
                return Err(MonitorCheckError::BlacklistUnavailable);
            },
            Some(v) => {
                push_filtered(&mut combined, v, checks.include_local_traffic, false);
            },
        }
    }
    proof {
        assert(combined.deep_view() =~= spec_whitelist_violations(*checks, *obs)
            + spec_blacklist_violations(*checks, *obs));
    }
    if checks.fail_on_anomalous {
        match &obs.anomalous {
            None => {
                return Err(MonitorCheckError::AnomalousUnavailable);
            },
            Some(v) => {
                push_filtered(&mut combined, v, checks.include_local_traffic, false);
            },
        }
    }
    proof {
        assert(combined.deep_view() =~= (spec_whitelist_violations(*checks, *obs)
            + spec_blacklist_violations(*checks, *obs)) + spec_anomalous_violations(
            *checks,
            *obs,
        ));
    }
    Ok(dedup_sessions(&combined))
}

/// The check blamed for an abandoned tick: the first enabled one, in check
/// order, whose query failed.
pub open spec fn spec_tick_error(checks: PolicyChecks, obs: TickObservations) -> MonitorCheckError {
    if checks.fail_on_whitelist && obs.whitelist is None {
        MonitorCheckError::WhitelistUnavailable
    } else if checks.fail_on_blacklist && obs.blacklisted is None {
        MonitorCheckError::BlacklistUnavailable
    } else {
        MonitorCheckError::AnomalousUnavailable
    }
}

/// What the worker does after a check: nothing on an empty violation set; on
/// any non-empty one, display the violations, invoke the canceller exactly
/// once, and exit with the mismatch code.
#[derive(Clone, Copy, Debug, PartialEq, Eq, Structural)]
pub struct HaltDirective {
    /// How many times the canceller is invoked before exiting.
    pub canceller_invocations: u64,
    /// The worker's exit code.
    pub exit_code: i32,
}

/// Decides the reaction to one tick's violation set.
pub fn violation_reaction(violations: &Vec<SessionRecord>) -> (r: Option<HaltDirective>)
    ensures
        r is Some <==> violations.deep_view().len() > 0,
        r matches Some(d) ==> d.canceller_invocations == 1 && d.exit_code == ERROR_CODE_MISMATCH,
{
    if violations.len() > 0 {
        Some(HaltDirective { canceller_invocations: 1, exit_code: ERROR_CODE_MISMATCH })
    } else {
        None
    }
}

/// The exit code of a halting worker: the mismatch code, whatever the
/// canceller reported — a failed cancellation is logged, never lets the
/// worker keep running, and never changes what CI sees.
pub fn halt_exit_code(outcome: &CancellationOutcome) -> (r: i32)
    ensures
        r == ERROR_CODE_MISMATCH,
{
    match outcome {
        CancellationOutcome::Success => ERROR_CODE_MISMATCH,
        CancellationOutcome::ScriptFailed { .. } => ERROR_CODE_MISMATCH,
        CancellationOutcome::EnvironmentUnsupported => ERROR_CODE_MISMATCH,
        CancellationOutcome::MissingCredential { .. } => ERROR_CODE_MISMATCH,
    }
}

/// The exit code of the foreground session listing: a failed whitelist
/// conformance query is a server error; a failed anomaly or blacklist status
/// query counts as no finding; any confirmed finding is a mismatch.
pub fn sessions_check_exit_code(
    check_whitelisted: bool,
    conformance: Option<bool>,
    check_anomalous: bool,
    anomalous: Option<bool>,
    check_blacklisted: bool,
    blacklisted: Option<bool>,
) -> (r: i32)
    ensures
        check_whitelisted && conformance is None ==> r == ERROR_CODE_SERVER_ERROR,
        !(check_whitelisted && conformance is None) ==> r == (if (check_whitelisted && conformance
            == Some(false)) || (check_anomalous && anomalous == Some(true)) || (check_blacklisted
            && blacklisted == Some(true)) {
            ERROR_CODE_MISMATCH
        } else {
            EXIT_CODE_SUCCESS
        }),
{
    let mut exit = EXIT_CODE_SUCCESS;
    if check_whitelisted {
        match conformance {
            None => {
                return ERROR_CODE_SERVER_ERROR;
            },
            Some(false) => {
                exit = ERROR_CODE_MISMATCH;
            },
            Some(true) => {},
        }
    }
    if check_anomalous && matches!(anomalous, Some(true)) {
        exit = ERROR_CODE_MISMATCH;
    }
    if check_blacklisted && matches!(blacklisted, Some(true)) {
        exit = ERROR_CODE_MISMATCH;
    }
    exit
}

} // verus!
