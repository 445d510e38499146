//! The store document: the worker-status record written as lines of text.
//! Numbers (including tags and booleans) are decimal lines; strings are
//! escaped lines. Writes replace the whole document; a reader that cannot
//! make sense of the document falls back to the default record instead of
//! failing, so a corrupt or torn file never crashes a caller.

use vstd::prelude::*;

use crate::state::{ProcessHandle, SessionRecord, SessionView, State, StateView, WhitelistState};
use crate::state::spec_default_state;
use crate::textenc::{
    dec_line, parse_dec_line, parse_text_line, text_line, lemma_dec_line_roundtrip,
    lemma_text_line_roundtrip, append_dec_line, append_text_line, read_dec_line, read_text_line,
};

verus! {

// ---------------------------------------------------------------------------
// Numeric encodings of the small enumerations.
// ---------------------------------------------------------------------------

/// A boolean as a number line value.
pub open spec fn enc_bool(b: bool) -> nat {
    if b {
        1
    } else {
        0
    }
}

/// The tag line value of a process handle.
pub open spec fn handle_tag(h: ProcessHandle) -> nat {
    match h {
        ProcessHandle::Absent => 0,
        ProcessHandle::Posix { .. } => 1,
        ProcessHandle::Windows { .. } => 2,
    }
}

/// The pid line value of a process handle; zero when absent.
pub open spec fn handle_pid(h: ProcessHandle) -> nat {
    match h {
        ProcessHandle::Absent => 0,
        ProcessHandle::Posix { pid } => pid as nat,
        ProcessHandle::Windows { pid, .. } => pid as nat,
    }
}

/// The raw-handle line value of a process handle; zero unless one was kept.
pub open spec fn handle_raw(h: ProcessHandle) -> nat {
    match h {
        ProcessHandle::Windows { raw_handle, .. } => raw_handle as nat,
        _ => 0,
    }
}

/// The tag line value of a whitelist conformance state.
pub open spec fn whitelist_state_tag(w: WhitelistState) -> nat {
    match w {
        WhitelistState::Conforming => 0,
        WhitelistState::NonConforming => 1,
        WhitelistState::Unknown => 2,
    }
}

// ---------------------------------------------------------------------------
// Writing.
// ---------------------------------------------------------------------------

/// The lines of one session record.
pub open spec fn spec_encode_session(s: SessionView) -> Seq<char> {
    text_line(s.uid) + text_line(s.src_ip) + dec_line(s.src_port as nat) + text_line(s.dst_ip)
        + dec_line(s.dst_port as nat) + text_line(s.protocol) + dec_line(enc_bool(s.is_local))
        + dec_line(whitelist_state_tag(s.whitelist_state))
}

/// The session records one after another.
pub open spec fn spec_encode_sessions(ss: Seq<SessionView>) -> Seq<char>
    decreases ss.len(),
{
    if ss.len() == 0 {
        Seq::empty()
    } else {
        spec_encode_session(ss[0]) + spec_encode_sessions(ss.drop_first())
    }
}

/// The fixed header lines of the record, before the session list.
pub open spec fn spec_encode_header(v: StateView) -> Seq<char> {
    dec_line(handle_tag(v.handle)) + dec_line(handle_pid(v.handle)) + dec_line(handle_raw(v.handle))
        + dec_line(enc_bool(v.is_connected)) + text_line(v.connected_domain) + text_line(
        v.connected_user,
    ) + text_line(v.last_network_activity) + text_line(v.last_report_signature) + text_line(
        v.score_snapshot,
    ) + text_line(v.whitelist_name) + dec_line(enc_bool(v.whitelist_conformance)) + text_line(
        v.backend_error_code,
    ) + text_line(v.backend_error_reason) + dec_line(v.sessions.len())
}

/// The whole document standing for one record.
pub open spec fn spec_encode_state(v: StateView) -> Seq<char> {
    spec_encode_header(v) + spec_encode_sessions(v.sessions)
}

// ---------------------------------------------------------------------------
// Reading. Every numeric field is bounds-checked, the session count may not
// exceed the text that remains, and the document must be consumed whole; a
// reading that ends otherwise is no record.
// ---------------------------------------------------------------------------

/// Reads a boolean line value.
pub open spec fn dec_bool(n: nat) -> Option<bool> {
    if n == 0 {
        Some(false)
    } else if n == 1 {
        Some(true)
    } else {
        None
    }
}

/// Rebuilds a process handle from its three line values.
pub open spec fn dec_handle(tag: nat, pid: nat, raw: nat) -> Option<ProcessHandle> {
    if pid > u32::MAX || raw > u64::MAX {
        None
    } else if tag == 0 {
        Some(ProcessHandle::Absent)
    } else if tag == 1 {
        Some(ProcessHandle::Posix { pid: pid as u32 })
    } else if tag == 2 {
        Some(ProcessHandle::Windows { pid: pid as u32, raw_handle: raw as u64 })
    } else {
        None
    }
}

/// Rebuilds a whitelist conformance state from its tag.
pub open spec fn dec_whitelist_state(tag: nat) -> Option<WhitelistState> {
    if tag == 0 {
        Some(WhitelistState::Conforming)
    } else if tag == 1 {
        Some(WhitelistState::NonConforming)
    } else if tag == 2 {
        Some(WhitelistState::Unknown)
    } else {
        None
    }
}

/// Reads one session record off the front of the text.
pub open spec fn spec_decode_session(doc: Seq<char>) -> Option<(SessionView, Seq<char>)> {
    match parse_text_line(doc) {
        None => None,
        Some((uid, d1)) => match parse_text_line(d1) {
            None => None,
            Some((src_ip, d2)) => match parse_dec_line(d2) {
                None => None,
                Some((src_port, d3)) => if src_port > u16::MAX {
                    None
                } else {
                    match parse_text_line(d3) {
                        None => None,
                        Some((dst_ip, d4)) => match parse_dec_line(d4) {
                            None => None,
                            Some((dst_port, d5)) => if dst_port > u16::MAX {
                                None
                            } else {
                                match parse_text_line(d5) {
                                    None => None,
                                    Some((protocol, d6)) => match parse_dec_line(d6) {
                                        None => None,
                                        Some((locb, d7)) => match dec_bool(locb) {
                                            None => None,
                                            Some(is_local) => match parse_dec_line(d7) {
                                                None => None,
                                                Some((wtag, d8)) => match dec_whitelist_state(
                                                    wtag,
                                                ) {
                                                    None => None,
                                                    Some(ws) => Some(
                                                        (
                                                            SessionView {
                                                                uid,
                                                                src_ip,
                                                                src_port: src_port as u16,
                                                                dst_ip,
                                                                dst_port: dst_port as u16,
                                                                protocol,
                                                                is_local,
                                                                whitelist_state: ws,
                                                            },
                                                            d8,
                                                        ),
                                                    ),
                                                },
                                            },
                                        },
                                    },
                                }
                            },
                        },
                    }
                },
            },
        },
    }
}

/// Reads `count` session records one after another.
pub open spec fn spec_decode_sessions(doc: Seq<char>, count: nat) -> Option<
    (Seq<SessionView>, Seq<char>),
>
    decreases count,
{
    if count == 0 {
        Some((Seq::empty(), doc))
    } else {
        match spec_decode_session(doc) {
            None => None,
            Some((sv, rest)) => match spec_decode_sessions(rest, (count - 1) as nat) {
                None => None,
                Some((tail, r2)) => Some((seq![sv] + tail, r2)),
            },
        }
    }
}

/// The header fields together with the announced session count.
#[verifier::ext_equal]
pub ghost struct HeaderView {
    pub handle: ProcessHandle,
    pub is_connected: bool,
    pub connected_domain: Seq<char>,
    pub connected_user: Seq<char>,
    pub last_network_activity: Seq<char>,
    pub last_report_signature: Seq<char>,
    pub score_snapshot: Seq<char>,
    pub whitelist_name: Seq<char>,
    pub whitelist_conformance: bool,
    pub backend_error_code: Seq<char>,
    pub backend_error_reason: Seq<char>,
    pub count: nat,
}

/// The header a record writes.
pub open spec fn header_of(v: StateView) -> HeaderView {
    HeaderView {
        handle: v.handle,
        is_connected: v.is_connected,
        connected_domain: v.connected_domain,
        connected_user: v.connected_user,
        last_network_activity: v.last_network_activity,
        last_report_signature: v.last_report_signature,
        score_snapshot: v.score_snapshot,
        whitelist_name: v.whitelist_name,
        whitelist_conformance: v.whitelist_conformance,
        backend_error_code: v.backend_error_code,
        backend_error_reason: v.backend_error_reason,
        count: v.sessions.len(),
    }
}

/// The record a header and a session list make up.
pub open spec fn assemble_state(h: HeaderView, sessions: Seq<SessionView>) -> StateView {
    StateView {
        handle: h.handle,
        is_connected: h.is_connected,
        connected_domain: h.connected_domain,
        connected_user: h.connected_user,
        last_network_activity: h.last_network_activity,
        last_report_signature: h.last_report_signature,
        score_snapshot: h.score_snapshot,
        sessions,
        whitelist_name: h.whitelist_name,
        whitelist_conformance: h.whitelist_conformance,
        backend_error_code: h.backend_error_code,
        backend_error_reason: h.backend_error_reason,
    }
}

/// Reads the handle and connection lines: three numbers, the handle they
/// make up, and the connected flag.
pub open spec fn spec_decode_front(doc: Seq<char>) -> Option<((ProcessHandle, bool), Seq<char>)> {
    match parse_dec_line(doc) {
        None => None,
        Some((tag, d1)) => match parse_dec_line(d1) {
            None => None,
            Some((pid, d2)) => match parse_dec_line(d2) {
                None => None,
                Some((raw, d3)) => match dec_handle(tag, pid, raw) {
                    None => None,
                    Some(handle) => match parse_dec_line(d3) {
                        None => None,
                        Some((connb, d4)) => match dec_bool(connb) {
                            None => None,
                            Some(is_connected) => Some(((handle, is_connected), d4)),
                        },
                    },
                },
            },
        },
    }
}

/// Reads the five free-text lines in the middle of the header.
pub open spec fn spec_decode_texts(doc: Seq<char>) -> Option<
    ((Seq<char>, Seq<char>, Seq<char>, Seq<char>, Seq<char>), Seq<char>),
> {
    match parse_text_line(doc) {
        None => None,
        Some((a, d1)) => match parse_text_line(d1) {
            None => None,
            Some((b, d2)) => match parse_text_line(d2) {
                None => None,
                Some((c, d3)) => match parse_text_line(d3) {
                    None => None,
                    Some((d, d4)) => match parse_text_line(d4) {
                        None => None,
                        Some((e, d5)) => Some(((a, b, c, d, e), d5)),
                    },
                },
            },
        },
    }
}

/// Reads the whitelist, error and count lines closing the header.
pub open spec fn spec_decode_back(doc: Seq<char>) -> Option<
    ((Seq<char>, bool, Seq<char>, Seq<char>, nat), Seq<char>),
> {
    match parse_text_line(doc) {
        None => None,
        Some((wl, d1)) => match parse_dec_line(d1) {
            None => None,
            Some((confb, d2)) => match dec_bool(confb) {
                None => None,
                Some(conf) => match parse_text_line(d2) {
                    None => None,
                    Some((ec, d3)) => match parse_text_line(d3) {
                        None => None,
                        Some((er, d4)) => match parse_dec_line(d4) {
                            None => None,
                            Some((count, d5)) => Some(((wl, conf, ec, er, count), d5)),
                        },
                    },
                },
            },
        },
    }
}

/// Reads the header lines off the front of the text.
pub open spec fn spec_decode_header(doc: Seq<char>) -> Option<(HeaderView, Seq<char>)> {
    match spec_decode_front(doc) {
        None => None,
        Some(((handle, is_connected), da)) => match spec_decode_texts(da) {
            None => None,
            Some(((domain, user, activity, signature, score), db)) => match spec_decode_back(db) {
                None => None,
                Some(((wl, conf, ec, er, count), dc)) => Some(
                    (
                        HeaderView {
                            handle,
                            is_connected,
                            connected_domain: domain,
                            connected_user: user,
                            last_network_activity: activity,
                            last_report_signature: signature,
                            score_snapshot: score,
                            whitelist_name: wl,
                            whitelist_conformance: conf,
                            backend_error_code: ec,
                            backend_error_reason: er,
                            count,
                        },
                        dc,
                    ),
                ),
            },
        },
    }
}

/// Reads a whole record: the header lines, then exactly the announced number
/// of sessions, consuming the document entirely, and upholds the record's
/// invariant.
pub open spec fn spec_decode_state(doc: Seq<char>) -> Option<StateView> {
    match spec_decode_header(doc) {
        None => None,
        Some((h, d14)) => if h.count > doc.len() {
            None
        } else {
            match spec_decode_sessions(d14, h.count) {
                None => None,
                Some((sessions, d15)) => if d15.len() != 0 {
                    None
                } else {
                    let v = assemble_state(h, sessions);
                    if v.wf() {
                        Some(v)
                    } else {
                        None
                    }
                },
            }
        },
    }
}

// ---------------------------------------------------------------------------
// The round trip: reading a written record recovers it exactly.
// ---------------------------------------------------------------------------

/// Reading one written session recovers it and leaves the remainder.
pub proof fn lemma_session_roundtrip(sv: SessionView, rest: Seq<char>)
    ensures
        spec_decode_session(spec_encode_session(sv) + rest) == Some((sv, rest)),
{
    let l1 = text_line(sv.uid);
    let l2 = text_line(sv.src_ip);
    let l3 = dec_line(sv.src_port as nat);
    let l4 = text_line(sv.dst_ip);
    let l5 = dec_line(sv.dst_port as nat);
    let l6 = text_line(sv.protocol);
    let l7 = dec_line(enc_bool(sv.is_local));
    let l8 = dec_line(whitelist_state_tag(sv.whitelist_state));
    let r8 = rest;
    let r7 = l8 + r8;
    let r6 = l7 + r7;
    let r5 = l6 + r6;
    let r4 = l5 + r5;
    let r3 = l4 + r4;
    let r2 = l3 + r3;
    let r1 = l2 + r2;
    let doc = spec_encode_session(sv) + rest;
    assert(doc =~= l1 + r1);
    lemma_text_line_roundtrip(sv.uid, r1);
    lemma_text_line_roundtrip(sv.src_ip, r2);
    lemma_dec_line_roundtrip(sv.src_port as nat, r3);
    lemma_text_line_roundtrip(sv.dst_ip, r4);
    lemma_dec_line_roundtrip(sv.dst_port as nat, r5);
    lemma_text_line_roundtrip(sv.protocol, r6);
    lemma_dec_line_roundtrip(enc_bool(sv.is_local), r7);
    lemma_dec_line_roundtrip(whitelist_state_tag(sv.whitelist_state), r8);
    let got = spec_decode_session(doc)->Some_0;
    assert(got.0 =~= sv);
}

/// Reading the written session list recovers it whole.
pub proof fn lemma_sessions_roundtrip(ss: Seq<SessionView>, rest: Seq<char>)
    ensures
        spec_decode_sessions(spec_encode_sessions(ss) + rest, ss.len()) == Some((ss, rest)),
    decreases ss.len(),
{
    if ss.len() == 0 {
        assert(spec_encode_sessions(ss) + rest =~= rest);
        assert(Seq::<SessionView>::empty() =~= ss);
    } else {
        let tail = ss.drop_first();
        let doc = spec_encode_sessions(ss) + rest;
        assert(doc =~= spec_encode_session(ss[0]) + (spec_encode_sessions(tail) + rest));
        lemma_session_roundtrip(ss[0], spec_encode_sessions(tail) + rest);
        lemma_sessions_roundtrip(tail, rest);
        assert(seq![ss[0]] + tail =~= ss);
    }
}

/// Writing session lists distributes over concatenation.
pub proof fn lemma_encode_sessions_concat(a: Seq<SessionView>, b: Seq<SessionView>)
    ensures
        spec_encode_sessions(a + b) == spec_encode_sessions(a) + spec_encode_sessions(b),
    decreases a.len(),
{
    if a.len() == 0 {
        assert(a + b =~= b);
        assert(spec_encode_sessions(a) + spec_encode_sessions(b) =~= spec_encode_sessions(b));
    } else {
        assert((a + b).drop_first() =~= a.drop_first() + b);
        lemma_encode_sessions_concat(a.drop_first(), b);
        assert(spec_encode_session(a[0]) + (spec_encode_sessions(a.drop_first())
            + spec_encode_sessions(b)) =~= (spec_encode_session(a[0]) + spec_encode_sessions(
            a.drop_first(),
        )) + spec_encode_sessions(b));
    }
}

/// A written session list is at least as long in characters as in records.
pub proof fn lemma_sessions_encoding_len(ss: Seq<SessionView>)
    ensures
        spec_encode_sessions(ss).len() >= ss.len(),
    decreases ss.len(),
{
    if ss.len() > 0 {
        lemma_sessions_encoding_len(ss.drop_first());
    }
}

/// Reading the written handle and connection lines recovers them.
pub proof fn lemma_front_roundtrip(h: ProcessHandle, conn: bool, rest: Seq<char>)
    ensures
        spec_decode_front(
            dec_line(handle_tag(h)) + dec_line(handle_pid(h)) + dec_line(handle_raw(h)) + dec_line(
                enc_bool(conn),
            ) + rest,
        ) == Some(((h, conn), rest)),
{
    let l1 = dec_line(handle_tag(h));
    let l2 = dec_line(handle_pid(h));
    let l3 = dec_line(handle_raw(h));
    let l4 = dec_line(enc_bool(conn));
    let r4 = rest;
    let r3 = l4 + r4;
    let r2 = l3 + r3;
    let r1 = l2 + r2;
    assert(l1 + l2 + l3 + l4 + rest =~= l1 + r1);
    lemma_dec_line_roundtrip(handle_tag(h), r1);
    lemma_dec_line_roundtrip(handle_pid(h), r2);
    lemma_dec_line_roundtrip(handle_raw(h), r3);
    assert(dec_handle(handle_tag(h), handle_pid(h), handle_raw(h)) == Some(h));
    lemma_dec_line_roundtrip(enc_bool(conn), r4);
}

/// Reading five written text lines recovers them.
pub proof fn lemma_texts_roundtrip(
    a: Seq<char>,
    b: Seq<char>,
    c: Seq<char>,
    d: Seq<char>,
    e: Seq<char>,
    rest: Seq<char>,
)
    ensures
        spec_decode_texts(
            text_line(a) + text_line(b) + text_line(c) + text_line(d) + text_line(e) + rest,
        ) == Some(((a, b, c, d, e), rest)),
{
    let r5 = rest;
    let r4 = text_line(e) + r5;
    let r3 = text_line(d) + r4;
    let r2 = text_line(c) + r3;
    let r1 = text_line(b) + r2;
    assert(text_line(a) + text_line(b) + text_line(c) + text_line(d) + text_line(e) + rest =~=
    text_line(a) + r1);
    lemma_text_line_roundtrip(a, r1);
    lemma_text_line_roundtrip(b, r2);
    lemma_text_line_roundtrip(c, r3);
    lemma_text_line_roundtrip(d, r4);
    lemma_text_line_roundtrip(e, r5);
}

/// Reading the written closing lines of the header recovers them.
pub proof fn lemma_back_roundtrip(
    wl: Seq<char>,
    conf: bool,
    ec: Seq<char>,
    er: Seq<char>,
    count: nat,
    rest: Seq<char>,
)
    ensures
        spec_decode_back(
            text_line(wl) + dec_line(enc_bool(conf)) + text_line(ec) + text_line(er) + dec_line(
                count,
            ) + rest,
        ) == Some(((wl, conf, ec, er, count), rest)),
{
    let r5 = rest;
    let r4 = dec_line(count) + r5;
    let r3 = text_line(er) + r4;
    let r2 = text_line(ec) + r3;
    let r1 = dec_line(enc_bool(conf)) + r2;
    assert(text_line(wl) + dec_line(enc_bool(conf)) + text_line(ec) + text_line(er) + dec_line(
        count,
    ) + rest =~= text_line(wl) + r1);
    lemma_text_line_roundtrip(wl, r1);
    lemma_dec_line_roundtrip(enc_bool(conf), r2);
    lemma_text_line_roundtrip(ec, r3);
    lemma_text_line_roundtrip(er, r4);
    lemma_dec_line_roundtrip(count, r5);
}

/// Reading a written header recovers its fields and the remainder.
pub proof fn lemma_header_roundtrip(v: StateView, rest: Seq<char>)
    ensures
        spec_decode_header(spec_encode_header(v) + rest) == Some((header_of(v), rest)),
{
    let front = dec_line(handle_tag(v.handle)) + dec_line(handle_pid(v.handle)) + dec_line(
        handle_raw(v.handle),
    ) + dec_line(enc_bool(v.is_connected));
    let texts = text_line(v.connected_domain) + text_line(v.connected_user) + text_line(
        v.last_network_activity,
    ) + text_line(v.last_report_signature) + text_line(v.score_snapshot);
    let back = text_line(v.whitelist_name) + dec_line(enc_bool(v.whitelist_conformance))
        + text_line(v.backend_error_code) + text_line(v.backend_error_reason) + dec_line(
        v.sessions.len(),
    );
    let doc = spec_encode_header(v) + rest;
    let rb = back + rest;
    let ra = texts + rb;
    assert(doc =~= front + ra);
    lemma_front_roundtrip(v.handle, v.is_connected, ra);
    assert(ra =~= texts + rb);
    lemma_texts_roundtrip(
        v.connected_domain,
        v.connected_user,
        v.last_network_activity,
        v.last_report_signature,
        v.score_snapshot,
        rb,
    );
    assert(rb =~= back + rest);
    lemma_back_roundtrip(
        v.whitelist_name,
        v.whitelist_conformance,
        v.backend_error_code,
        v.backend_error_reason,
        v.sessions.len(),
        rest,
    );
    let got = spec_decode_header(doc)->Some_0;
    assert(got.0 =~= header_of(v));
}

/// Reading a written record recovers it exactly: what `save` wrote, `load`
/// returns, for every record that upholds the invariant.
pub proof fn lemma_store_roundtrip(v: StateView)
    requires
        v.wf(),
    ensures
        spec_decode_state(spec_encode_state(v)) == Some(v),
{
    let body = spec_encode_sessions(v.sessions);
    let doc = spec_encode_state(v);
    assert(doc =~= spec_encode_header(v) + body);
    lemma_header_roundtrip(v, body);
    lemma_sessions_encoding_len(v.sessions);
    assert(v.sessions.len() <= doc.len());
    assert(body =~= spec_encode_sessions(v.sessions) + Seq::<char>::empty());
    lemma_sessions_roundtrip(v.sessions, Seq::empty());
    let got = spec_decode_state(doc)->Some_0;
    assert(got =~= v);
}

// ---------------------------------------------------------------------------
// Executable writing.
// ---------------------------------------------------------------------------

/// Appends the lines of one session record.
fn append_session(out: &mut String, s: &SessionRecord)
    ensures
        final(out)@ == old(out)@ + spec_encode_session(s@),
{
    append_text_line(out, s.uid.as_str());
    append_text_line(out, s.src_ip.as_str());
    append_dec_line(out, s.src_port as u64);
    append_text_line(out, s.dst_ip.as_str());
    append_dec_line(out, s.dst_port as u64);
    append_text_line(out, s.protocol.as_str());
    append_dec_line(
        out,
        if s.is_local {
            1
        } else {
            0
        },
    );
    let wtag: u64 = match s.whitelist_state {
        WhitelistState::Conforming => 0,
        WhitelistState::NonConforming => 1,
        WhitelistState::Unknown => 2,
    };
    append_dec_line(out, wtag);
    proof {
        assert(out@ =~= old(out)@ + spec_encode_session(s@));
    }
}

/// Writes the whole record as the store document. What `load` reads from
/// this text is the record itself (see `lemma_store_roundtrip`).
pub fn encode_store(state: &State) -> (doc: String)
    ensures
        doc@ == spec_encode_state(state@),
{
    let mut out = String::new();
    let tag: u64;
    let pid: u64;
    let raw: u64;
    match state.handle {
        ProcessHandle::Absent => {
            tag = 0;
            pid = 0;
            raw = 0;
        },
        ProcessHandle::Posix { pid: p } => {
            tag = 1;
            pid = p as u64;
            raw = 0;
        },
        ProcessHandle::Windows { pid: p, raw_handle: h } => {
            tag = 2;
            pid = p as u64;
            raw = h;
        },
    }
    append_dec_line(&mut out, tag);
    append_dec_line(&mut out, pid);
    append_dec_line(&mut out, raw);
    append_dec_line(
        &mut out,
        if state.is_connected {
            1
        } else {
            0
        },
    );
    append_text_line(&mut out, state.connected_domain.as_str());
    append_text_line(&mut out, state.connected_user.as_str());
    append_text_line(&mut out, state.last_network_activity.as_str());
    append_text_line(&mut out, state.last_report_signature.as_str());
    append_text_line(&mut out, state.score_snapshot.as_str());
    append_text_line(&mut out, state.whitelist_name.as_str());
    append_dec_line(
        &mut out,
        if state.whitelist_conformance {
            1
        } else {
            0
        },
    );
    append_text_line(&mut out, state.backend_error_code.as_str());
    append_text_line(&mut out, state.backend_error_reason.as_str());
    append_dec_line(&mut out, state.sessions.len() as u64);
    proof {
        assert(out@ =~= spec_encode_header(state@));
    }
    let ghost header = out@;
    let n = state.sessions.len();
    let mut i: usize = 0;
    while i < n
        invariant
            n == state.sessions.len(),
            i <= n,
            out@ == header + spec_encode_sessions(state@.sessions.subrange(0, i as int)),
        decreases n - i,
    {
        append_session(&mut out, &state.sessions[i]);
        proof {
            let ss = state@.sessions;
            assert(ss.subrange(0, i as int + 1) =~= ss.subrange(0, i as int) + seq![ss[i as int]]);
            lemma_encode_sessions_concat(ss.subrange(0, i as int), seq![ss[i as int]]);
            assert(seq![ss[i as int]].drop_first() =~= Seq::<SessionView>::empty());
            assert(spec_encode_sessions(seq![ss[i as int]]) == spec_encode_session(ss[i as int])
                + spec_encode_sessions(seq![ss[i as int]].drop_first()));
            assert(spec_encode_sessions(Seq::<SessionView>::empty()) == Seq::<char>::empty());
            assert(spec_encode_sessions(seq![ss[i as int]]) =~= spec_encode_session(ss[i as int]));
            assert(state.sessions[i as int]@ == ss[i as int]);
        }
        i = i + 1;
        proof {
            assert(out@ =~= header + spec_encode_sessions(state@.sessions.subrange(0, i as int)));
        }
    }
    proof {
        assert(state@.sessions.subrange(0, n as int) =~= state@.sessions);
        assert(out@ =~= spec_encode_state(state@));
    }
    out
}

// ---------------------------------------------------------------------------
// Executable reading.
// ---------------------------------------------------------------------------

/// Reads the handle and connection lines.
fn decode_front(doc: &str, pos: usize) -> (r: Option<(ProcessHandle, bool, usize)>)
    requires
        pos <= doc@.len(),
    ensures
        match r {
            Some(f) => {
                &&& pos < f.2 <= doc@.len()
                &&& spec_decode_front(doc@.skip(pos as int)) == Some(
                    ((f.0, f.1), doc@.skip(f.2 as int)),
                )
            },
            None => spec_decode_front(doc@.skip(pos as int)) is None,
        },
{
    let (tag, p1) = match read_dec_line(doc, pos) {
        Some(x) => x,
        None => {
            return None;
        },
    };
    let (pid, p2) = match read_dec_line(doc, p1) {
        Some(x) => x,
        None => {
            return None;
        },
    };
    let (raw, p3) = match read_dec_line(doc, p2) {
        Some(x) => x,
        None => {
            return None;
        },
    };
    if pid > u32::MAX as u64 {
        return None;
    }
    let handle: ProcessHandle;
    if tag == 0 {
        handle = ProcessHandle::Absent;
    } else if tag == 1 {
        handle = ProcessHandle::Posix { pid: pid as u32 };
    } else if tag == 2 {
        handle = ProcessHandle::Windows { pid: pid as u32, raw_handle: raw };
    } else {
        return None;
    }
    let (connb, p4) = match read_dec_line(doc, p3) {
        Some(x) => x,
        None => {
            return None;
        },
    };
    let is_connected: bool;
    if connb == 0 {
        is_connected = false;
    } else if connb == 1 {
        is_connected = true;
    } else {
        return None;
    }
    proof {
        assert(dec_handle(tag as nat, pid as nat, raw as nat) == Some(handle));
        assert(dec_bool(connb as nat) == Some(is_connected));
    }
    Some((handle, is_connected, p4))
}

/// Reads the five free-text lines.
fn decode_texts(doc: &str, pos: usize) -> (r: Option<(String, String, String, String, String, usize)>)
    requires
        pos <= doc@.len(),
    ensures
        match r {
            Some(t) => {
                &&& pos < t.5 <= doc@.len()
                &&& spec_decode_texts(doc@.skip(pos as int)) == Some(
                    ((t.0@, t.1@, t.2@, t.3@, t.4@), doc@.skip(t.5 as int)),
                )
            },
            None => spec_decode_texts(doc@.skip(pos as int)) is None,
        },
{
    let (a, p1) = match read_text_line(doc, pos) {
        Some(x) => x,
        None => {
            return None;
        },
    };
    let (b, p2) = match read_text_line(doc, p1) {
        Some(x) => x,
        None => {
            return None;
        },
    };
    let (c, p3) = match read_text_line(doc, p2) {
        Some(x) => x,
        None => {
            return None;
        },
    };
    let (d, p4) = match read_text_line(doc, p3) {
        Some(x) => x,
        None => {
            return None;
        },
    };
    let (e, p5) = match read_text_line(doc, p4) {
        Some(x) => x,
        None => {
            return None;
        },
    };
    Some((a, b, c, d, e, p5))
}

/// Reads the whitelist, error and count lines. A `None` also covers a count
/// too large for the machine, which no remaining text can satisfy.
fn decode_back(doc: &str, pos: usize) -> (r: Option<(String, bool, String, String, u64, usize)>)
    requires
        pos <= doc@.len(),
    ensures
        match r {
            Some(t) => {
                &&& pos < t.5 <= doc@.len()
                &&& spec_decode_back(doc@.skip(pos as int)) == Some(
                    ((t.0@, t.1, t.2@, t.3@, t.4 as nat), doc@.skip(t.5 as int)),
                )
            },
            None => spec_decode_back(doc@.skip(pos as int)) is None || spec_decode_back(
                doc@.skip(pos as int),
            )->Some_0.0.4 > u64::MAX,
        },
{
    let (wl, p1) = match read_text_line(doc, pos) {
        Some(x) => x,
        None => {
            return None;
        },
    };
    let (confb, p2) = match read_dec_line(doc, p1) {
        Some(x) => x,
        None => {
            return None;
        },
    };
    let conf: bool;
    if confb == 0 {
        conf = false;
    } else if confb == 1 {
        conf = true;
    } else {
        return None;
    }
    let (ec, p3) = match read_text_line(doc, p2) {
        Some(x) => x,
        None => {
            return None;
        },
    };
    let (er, p4) = match read_text_line(doc, p3) {
        Some(x) => x,
        None => {
            return None;
        },
    };
    let (count, p5) = match read_dec_line(doc, p4) {
        Some(x) => x,
        None => {
            return None;
        },
    };
    Some((wl, conf, ec, er, count, p5))
}

/// Reads one session record.
fn decode_session(doc: &str, pos: usize) -> (r: Option<(SessionRecord, usize)>)
    requires
        pos <= doc@.len(),
    ensures
        match r {
            Some(sp) => {
                &&& pos < sp.1 <= doc@.len()
                &&& spec_decode_session(doc@.skip(pos as int)) == Some(
                    (sp.0@, doc@.skip(sp.1 as int)),
                )
            },
            None => spec_decode_session(doc@.skip(pos as int)) is None,
        },
{
    let (uid, p1) = match read_text_line(doc, pos) {
        Some(x) => x,
        None => {
            return None;
        },
    };
    let (src_ip, p2) = match read_text_line(doc, p1) {
        Some(x) => x,
        None => {
            return None;
        },
    };
    let (src_port, p3) = match read_dec_line(doc, p2) {
        Some(x) => x,
        None => {
            return None;
        },
    };
    if src_port > u16::MAX as u64 {
        return None;
    }
    let (dst_ip, p4) = match read_text_line(doc, p3) {
        Some(x) => x,
        None => {
            return None;
        },
    };
    let (dst_port, p5) = match read_dec_line(doc, p4) {
        Some(x) => x,
        None => {
            return None;
        },
    };
    if dst_port > u16::MAX as u64 {
        return None;
    }
    let (protocol, p6) = match read_text_line(doc, p5) {
        Some(x) => x,
        None => {
            return None;
        },
    };
    let (locb, p7) = match read_dec_line(doc, p6) {
        Some(x) => x,
        None => {
            return None;
        },
    };
    let is_local: bool;
    if locb == 0 {
        is_local = false;
    } else if locb == 1 {
        is_local = true;
    } else {
        return None;
    }
    let (wtag, p8) = match read_dec_line(doc, p7) {
        Some(x) => x,
        None => {
            return None;
        },
    };
    let whitelist_state: WhitelistState;
    if wtag == 0 {
        whitelist_state = WhitelistState::Conforming;
    } else if wtag == 1 {
        whitelist_state = WhitelistState::NonConforming;
    } else if wtag == 2 {
        whitelist_state = WhitelistState::Unknown;
    } else {
        return None;
    }
    let rec = SessionRecord {
        uid,
        src_ip,
        src_port: src_port as u16,
        dst_ip,
        dst_port: dst_port as u16,
        protocol,
        is_local,
        whitelist_state,
    };
    proof {
        assert(spec_decode_session(doc@.skip(pos as int)) matches Some(p) && p.0 =~= rec@);
    }
    Some((rec, p8))
}

/// Reads the whole header into a record with an empty session list, handing
/// back the announced count and the reading position.
fn decode_header(doc: &str) -> (r: Option<(State, u64, usize)>)
    ensures
        match r {
            Some(t) => {
                &&& t.2 <= doc@.len()
                &&& t.0@.sessions == Seq::<SessionView>::empty()
                &&& spec_decode_header(doc@) == Some(
                    (
                        HeaderView {
                            handle: t.0@.handle,
                            is_connected: t.0@.is_connected,
                            connected_domain: t.0@.connected_domain,
                            connected_user: t.0@.connected_user,
                            last_network_activity: t.0@.last_network_activity,
                            last_report_signature: t.0@.last_report_signature,
                            score_snapshot: t.0@.score_snapshot,
                            whitelist_name: t.0@.whitelist_name,
                            whitelist_conformance: t.0@.whitelist_conformance,
                            backend_error_code: t.0@.backend_error_code,
                            backend_error_reason: t.0@.backend_error_reason,
                            count: t.1 as nat,
                        },
                        doc@.skip(t.2 as int),
                    ),
                )
            },
            None => spec_decode_header(doc@) is None || spec_decode_header(
                doc@,
            )->Some_0.0.count > u64::MAX,
        },
{
    proof {
        assert(doc@.skip(0) =~= doc@);
    }
    let (handle, is_connected, pa) = match decode_front(doc, 0) {
        Some(x) => x,
        None => {
            return None;
        },
    };
    let (domain, user, activity, signature, score, pb) = match decode_texts(doc, pa) {
        Some(x) => x,
        None => {
            return None;
        },
    };
    let (wl, conf, ec, er, count, pc) = match decode_back(doc, pb) {
        Some(x) => x,
        None => {
            return None;
        },
    };
    let st = State {
        handle,
        is_connected,
        connected_domain: domain,
        connected_user: user,
        last_network_activity: activity,
        last_report_signature: signature,
        score_snapshot: score,
        sessions: Vec::new(),
        whitelist_name: wl,
        whitelist_conformance: conf,
        backend_error_code: ec,
        backend_error_reason: er,
    };
    proof {
        assert(st@.sessions =~= Seq::<SessionView>::empty());
    }
    Some((st, count, pc))
}

/// Reads a whole store document back into a record; `None` where the text is
/// no record.
#[verifier::rlimit(50)]
pub fn decode_store(doc: &str) -> (r: Option<State>)
    ensures
        match r {
            Some(st) => spec_decode_state(doc@) == Some(st@) && st@.wf(),
            None => spec_decode_state(doc@) is None,
        },
{
    let n = doc.unicode_len();
    let (header_state, count, pc) = match decode_header(doc) {
        Some(x) => x,
        None => {
            return None;
        },
    };
    if count > n as u64 {
        return None;
    }
    let ghost h = spec_decode_header(doc@)->Some_0.0;
    let mut sessions: Vec<SessionRecord> = Vec::new();
    let mut pos = pc;
    let mut i: u64 = 0;
    proof {
        assert(sessions.deep_view() =~= Seq::<SessionView>::empty());
        assert(spec_decode_sessions(doc@.skip(pc as int), count as nat) == (
        match spec_decode_sessions(doc@.skip(pos as int), (count - i) as nat) {
            Some((t, rest)) => Some((sessions.deep_view() + t, rest)),
            None => None,
        }));
    }
    while i < count
        invariant
            i <= count,
            pos <= doc@.len(),
            n == doc@.len(),
            count <= n as u64,
            spec_decode_header(doc@) == Some((h, doc@.skip(pc as int))),
            h.count == count as nat,
            spec_decode_sessions(doc@.skip(pc as int), count as nat) == (
            match spec_decode_sessions(doc@.skip(pos as int), (count - i) as nat) {
                Some((t, rest)) => Some((sessions.deep_view() + t, rest)),
                None => None,
            }),
        decreases count - i,
    {
        let (rec, p2) = match decode_session(doc, pos) {
            Some(x) => x,
            None => {
                proof {
                    let k = (count - i) as nat;
                    assert(spec_decode_sessions(doc@.skip(pos as int), k) is None);
                    assert(spec_decode_sessions(doc@.skip(pc as int), count as nat) is None);
                    assert(spec_decode_state(doc@) is None);
                }
                return None;
            },
        };
        let ghost old_views = sessions.deep_view();
        sessions.push(rec);
        proof {
            let k = (count - i) as nat;
            let cur = doc@.skip(pos as int);
            let next = doc@.skip(p2 as int);
            assert(spec_decode_sessions(cur, k) == (
            match spec_decode_sessions(next, (k - 1) as nat) {
                Some((tail, r2)) => Some((seq![rec@] + tail, r2)),
                None => None,
            }));
            assert(sessions.deep_view() =~= old_views.push(rec@));
            if spec_decode_sessions(next, (k - 1) as nat) is Some {
                let t2 = spec_decode_sessions(next, (k - 1) as nat)->Some_0.0;
                assert(old_views + (seq![rec@] + t2) =~= old_views.push(rec@) + t2);
            }
        }
        pos = p2;
        i = i + 1;
    }
    proof {
        assert(spec_decode_sessions(doc@.skip(pos as int), 0) == Some(
            (Seq::<SessionView>::empty(), doc@.skip(pos as int)),
        ));
        assert(sessions.deep_view() + Seq::<SessionView>::empty() =~= sessions.deep_view());
    }
    if pos < n {
        proof {
            assert(doc@.skip(pos as int).len() != 0);
        }
        return None;
    }
    if header_state.is_connected && header_state.last_network_activity.as_str().is_empty() {
        return None;
    }
    let mut st = header_state;
    st.sessions = sessions;
    proof {
        assert(doc@.skip(pos as int).len() == 0);
        assert(st@ =~= assemble_state(h, st@.sessions));
        assert(spec_decode_state(doc@) == Some(st@));
    }
    Some(st)
}

/// What `load` hands its caller for any store text: the record the text
/// holds, or the default record when the text is corrupt, empty or torn —
/// never a failure. The flag says whether the store should be reset to the
/// default document.
pub fn interpret_store(doc: &str) -> (r: (State, bool))
    ensures
        match spec_decode_state(doc@) {
            Some(v) => r.0@ == v && !r.1,
            None => r.0@ == spec_default_state() && r.1,
        },
        r.0@.wf(),
{
    match decode_store(doc) {
        Some(st) => (st, false),
        None => (State::default(), true),
    }
}

} // verus!
