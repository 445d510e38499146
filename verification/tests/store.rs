use edamame_posture::state::{ProcessHandle, SessionRecord, State, WhitelistState};
use edamame_posture::store::{decode_store, encode_store, interpret_store};

fn sample_session(uid: &str, local: bool, ws: WhitelistState) -> SessionRecord {
    SessionRecord {
        uid: uid.to_string(),
        src_ip: "192.168.1.10".to_string(),
        src_port: 54321,
        dst_ip: "93.184.216.34".to_string(),
        dst_port: 443,
        protocol: "TCP".to_string(),
        is_local: local,
        whitelist_state: ws,
    }
}

fn sample_state() -> State {
    State {
        handle: ProcessHandle::Posix { pid: 4242 },
        is_connected: true,
        connected_domain: "example.com".to_string(),
        connected_user: "runner".to_string(),
        last_network_activity: "2024-05-01T10:00:00Z".to_string(),
        last_report_signature: "sig-abc".to_string(),
        score_snapshot: "stars: 4\nnetwork: ok".to_string(),
        sessions: vec![
            sample_session("s-1", false, WhitelistState::Conforming),
            sample_session("s-2", true, WhitelistState::NonConforming),
        ],
        whitelist_name: "corp-wl".to_string(),
        whitelist_conformance: false,
        backend_error_code: "None".to_string(),
        backend_error_reason: String::new(),
    }
}

fn assert_states_equal(a: &State, b: &State) {
    assert_eq!(a.handle, b.handle);
    assert_eq!(a.is_connected, b.is_connected);
    assert_eq!(a.connected_domain, b.connected_domain);
    assert_eq!(a.connected_user, b.connected_user);
    assert_eq!(a.last_network_activity, b.last_network_activity);
    assert_eq!(a.last_report_signature, b.last_report_signature);
    assert_eq!(a.score_snapshot, b.score_snapshot);
    assert_eq!(a.whitelist_name, b.whitelist_name);
    assert_eq!(a.whitelist_conformance, b.whitelist_conformance);
    assert_eq!(a.backend_error_code, b.backend_error_code);
    assert_eq!(a.backend_error_reason, b.backend_error_reason);
    assert_eq!(a.sessions.len(), b.sessions.len());
    for (x, y) in a.sessions.iter().zip(b.sessions.iter()) {
        assert_eq!(x.uid, y.uid);
        assert_eq!(x.src_ip, y.src_ip);
        assert_eq!(x.src_port, y.src_port);
        assert_eq!(x.dst_ip, y.dst_ip);
        assert_eq!(x.dst_port, y.dst_port);
        assert_eq!(x.protocol, y.protocol);
        assert_eq!(x.is_local, y.is_local);
        assert_eq!(x.whitelist_state, y.whitelist_state);
    }
}

#[test]
fn save_then_load_round_trips() {
    let state = sample_state();
    let doc = encode_store(&state);
    let loaded = decode_store(&doc).expect("a written record must read back");
    assert_states_equal(&state, &loaded);
}

#[test]
fn round_trip_keeps_awkward_characters() {
    let mut state = sample_state();
    state.connected_user = "line\nbreak".to_string();
    state.score_snapshot = "back\\slash \\n literal\n\nblank".to_string();
    state.backend_error_reason = "comma, colon: dash-".to_string();
    let doc = encode_store(&state);
    let loaded = decode_store(&doc).expect("escaped text must read back");
    assert_states_equal(&state, &loaded);
}

#[test]
fn round_trip_keeps_windows_handle() {
    let mut state = sample_state();
    state.handle = ProcessHandle::Windows { pid: 77, raw_handle: u64::MAX };
    let doc = encode_store(&state);
    let loaded = decode_store(&doc).expect("a handle with all bits set must read back");
    assert_eq!(loaded.handle, ProcessHandle::Windows { pid: 77, raw_handle: u64::MAX });
}

#[test]
fn round_trip_keeps_empty_record() {
    let state = State::default();
    let doc = encode_store(&state);
    let loaded = decode_store(&doc).expect("the default record must read back");
    assert_states_equal(&state, &loaded);
}

#[test]
fn load_of_empty_store_is_default() {
    let (state, reset) = interpret_store("");
    assert!(reset);
    assert_states_equal(&state, &State::default());
}

#[test]
fn load_of_corrupt_store_is_default() {
    let (state, reset) = interpret_store("not: a\nrecord ???\n\x01\x02");
    assert!(reset);
    assert_states_equal(&state, &State::default());
    assert_eq!(state.handle, ProcessHandle::Absent);
    assert!(!state.is_connected);
    assert!(state.whitelist_conformance);
}

#[test]
fn load_of_truncated_store_is_default() {
    let full = encode_store(&sample_state());
    let cut = &full[..full.len() / 2];
    let (state, reset) = interpret_store(cut);
    assert!(reset);
    assert_states_equal(&state, &State::default());
}

#[test]
fn load_of_intact_store_needs_no_reset() {
    let doc = encode_store(&sample_state());
    let (state, reset) = interpret_store(&doc);
    assert!(!reset);
    assert_states_equal(&state, &sample_state());
}

#[test]
fn reset_content_reads_as_default() {
    // What the caller writes back after a corrupt load is itself loadable.
    let reset_doc = encode_store(&State::default());
    let (state, reset) = interpret_store(&reset_doc);
    assert!(!reset);
    assert_states_equal(&state, &State::default());
}

#[test]
fn load_rejects_connected_record_without_activity() {
    // A record claiming a connection but no observed activity breaks the
    // store's invariant and reads as corrupt.
    let mut state = sample_state();
    state.is_connected = true;
    state.last_network_activity = String::new();
    let doc = encode_store(&state);
    assert!(decode_store(&doc).is_none());
    let (loaded, reset) = interpret_store(&doc);
    assert!(reset);
    assert_states_equal(&loaded, &State::default());
}

#[test]
fn load_rejects_trailing_garbage() {
    let mut doc = encode_store(&sample_state());
    doc.push_str("tail");
    assert!(decode_store(&doc).is_none());
}
