//! The persisted record describing worker status, shared between the
//! foreground process and the background worker through the store file.
//! The record is always read and written whole, never patched field by field.

use vstd::prelude::*;

verus! {

/// Identity of the spawned worker process: a bare process id on systems with
/// a fork model, or a process id together with the raw handle that process
/// creation returned (the receiver of such a handle must close it, or it
/// leaks). At most one live handle exists at a time: one record, one worker.
#[derive(Clone, Copy, Debug, PartialEq, Eq, Structural)]
pub enum ProcessHandle {
    /// No worker is recorded.
    Absent,
    /// A process id alone.
    Posix { pid: u32 },
    /// A process id and the raw handle from process creation.
    Windows { pid: u32, raw_handle: u64 },
}

/// Conformance of one observed session against the active whitelist.
#[derive(Clone, Copy, Debug, PartialEq, Eq, Structural)]
pub enum WhitelistState {
    Conforming,
    NonConforming,
    Unknown,
}

/// One observed network session, as the worker snapshots it.
#[derive(Debug)]
pub struct SessionRecord {
    /// Identity of the session; violations are deduplicated by it.
    pub uid: String,
    pub src_ip: String,
    pub src_port: u16,
    pub dst_ip: String,
    pub dst_port: u16,
    pub protocol: String,
    /// Whether the session is local traffic, excluded from checks by default.
    pub is_local: bool,
    pub whitelist_state: WhitelistState,
}

/// The mathematical reading of a session record.
#[verifier::ext_equal]
pub ghost struct SessionView {
    pub uid: Seq<char>,
    pub src_ip: Seq<char>,
    pub src_port: u16,
    pub dst_ip: Seq<char>,
    pub dst_port: u16,
    pub protocol: Seq<char>,
    pub is_local: bool,
    pub whitelist_state: WhitelistState,
}

impl View for SessionRecord {
    type V = SessionView;

    open spec fn view(&self) -> SessionView {
        SessionView {
            uid: self.uid@,
            src_ip: self.src_ip@,
            src_port: self.src_port,
            dst_ip: self.dst_ip@,
            dst_port: self.dst_port,
            protocol: self.protocol@,
            is_local: self.is_local,
            whitelist_state: self.whitelist_state,
        }
    }
}

impl DeepView for SessionRecord {
    type V = SessionView;

    open spec fn deep_view(&self) -> SessionView {
        self@
    }
}

impl Clone for SessionRecord {
    /// A clone reads the same.
    fn clone(&self) -> (r: SessionRecord)
        ensures
            r@ == self@,
    {
        SessionRecord {
            uid: self.uid.clone(),
            src_ip: self.src_ip.clone(),
            src_port: self.src_port,
            dst_ip: self.dst_ip.clone(),
            dst_port: self.dst_port,
            protocol: self.protocol.clone(),
            is_local: self.is_local,
            whitelist_state: self.whitelist_state,
        }
    }
}

/// The persisted worker-status record. Created with default content when the
/// store file does not yet exist; overwritten whole by the worker on each
/// monitoring tick; read, never written, by foreground invocations; reset to
/// defaults when the worker is stopped or found dead.
#[derive(Debug)]
pub struct State {
    /// Identity of the running worker, if one was recorded.
    pub handle: ProcessHandle,
    pub is_connected: bool,
    pub connected_domain: String,
    pub connected_user: String,
    /// Timestamp text of the last observed network activity; empty when none.
    pub last_network_activity: String,
    pub last_report_signature: String,
    /// Engine-owned score report, carried as an opaque text blob.
    pub score_snapshot: String,
    /// The last session snapshot, in the order the worker observed them.
    pub sessions: Vec<SessionRecord>,
    pub whitelist_name: String,
    pub whitelist_conformance: bool,
    pub backend_error_code: String,
    pub backend_error_reason: String,
}

/// The mathematical reading of the record.
#[verifier::ext_equal]
pub ghost struct StateView {
    pub handle: ProcessHandle,
    pub is_connected: bool,
    pub connected_domain: Seq<char>,
    pub connected_user: Seq<char>,
    pub last_network_activity: Seq<char>,
    pub last_report_signature: Seq<char>,
    pub score_snapshot: Seq<char>,
    pub sessions: Seq<SessionView>,
    pub whitelist_name: Seq<char>,
    pub whitelist_conformance: bool,
    pub backend_error_code: Seq<char>,
    pub backend_error_reason: Seq<char>,
}

impl View for State {
    type V = StateView;

    open spec fn view(&self) -> StateView {
        StateView {
            handle: self.handle,
            is_connected: self.is_connected,
            connected_domain: self.connected_domain@,
            connected_user: self.connected_user@,
            last_network_activity: self.last_network_activity@,
            last_report_signature: self.last_report_signature@,
            score_snapshot: self.score_snapshot@,
            sessions: self.sessions.deep_view(),
            whitelist_name: self.whitelist_name@,
            whitelist_conformance: self.whitelist_conformance,
            backend_error_code: self.backend_error_code@,
            backend_error_reason: self.backend_error_reason@,
        }
    }
}

impl StateView {
    /// The record's invariant: a connected worker has observed activity.
    pub open spec fn wf(self) -> bool {
        self.is_connected ==> self.last_network_activity.len() > 0
    }
}

/// The default record: no worker, disconnected, empty snapshots. The
/// whitelist is vacuously conforming until a check says otherwise.
pub open spec fn spec_default_state() -> StateView {
    StateView {
        handle: ProcessHandle::Absent,
        is_connected: false,
        connected_domain: Seq::empty(),
        connected_user: Seq::empty(),
        last_network_activity: Seq::empty(),
        last_report_signature: Seq::empty(),
        score_snapshot: Seq::empty(),
        sessions: Seq::empty(),
        whitelist_name: Seq::empty(),
        whitelist_conformance: true,
        backend_error_code: Seq::empty(),
        backend_error_reason: Seq::empty(),
    }
}

impl Default for State {
    /// The value a fresh or reset store holds.
    fn default() -> (r: State)
        ensures
            r@ == spec_default_state(),
            r@.wf(),
    {
        let r = State {
            handle: ProcessHandle::Absent,
            is_connected: false,
            connected_domain: String::new(),
            connected_user: String::new(),
            last_network_activity: String::new(),
            last_report_signature: String::new(),
            score_snapshot: String::new(),
            sessions: Vec::new(),
            whitelist_name: String::new(),
            whitelist_conformance: true,
            backend_error_code: String::new(),
            backend_error_reason: String::new(),
        };
        proof {
            assert(r.sessions.deep_view() =~= Seq::<SessionView>::empty());
            assert(r@ =~= spec_default_state());
        }
        r
    }
}

} // verus!
