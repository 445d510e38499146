use edamame_posture::device::{compose_device_id, resolve_machine_uid};

#[test]
fn reported_machine_uid_wins_when_non_empty() {
    let uid = resolve_machine_uid(
        Some("machine-1".to_string()),
        Some("firmware-2".to_string()),
        "random-3".to_string(),
    );
    assert_eq!(uid, "machine-1");
}

#[test]
fn empty_reported_uid_falls_back_to_firmware() {
    let uid = resolve_machine_uid(
        Some(String::new()),
        Some("firmware-2".to_string()),
        "random-3".to_string(),
    );
    assert_eq!(uid, "firmware-2");
    let uid = resolve_machine_uid(None, Some("firmware-2".to_string()), "random-3".to_string());
    assert_eq!(uid, "firmware-2");
}

#[test]
fn unreadable_firmware_uid_falls_back_to_random() {
    let uid = resolve_machine_uid(Some(String::new()), None, "random-3".to_string());
    assert_eq!(uid, "random-3");
}

#[test]
fn device_identity_composition() {
    assert_eq!(
        compose_device_id(&"machine-1".to_string(), &"ci-node".to_string()),
        "machine-1/ci-node"
    );
    assert_eq!(compose_device_id(&"machine-1".to_string(), &String::new()), "");
}
