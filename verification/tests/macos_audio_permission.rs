use swictation::macos_audio_permission::{
    has_microphone_permission, initial_permission, poll_permission, AVAuthorizationStatus,
};

#[test]
fn test_has_microphone_permission() {
    let status = AVAuthorizationStatus::from(0);
    let has_permission = has_microphone_permission(status);
    println!("Has microphone permission: {}", has_permission);
    assert!(!has_permission);
    assert!(has_microphone_permission(AVAuthorizationStatus::from(3)));
}

#[test]
fn raw_values_map_to_statuses() {
    assert_eq!(AVAuthorizationStatus::from(0), AVAuthorizationStatus::NotDetermined);
    assert_eq!(AVAuthorizationStatus::from(1), AVAuthorizationStatus::Restricted);
    assert_eq!(AVAuthorizationStatus::from(2), AVAuthorizationStatus::Denied);
    assert_eq!(AVAuthorizationStatus::from(3), AVAuthorizationStatus::Authorized);
    assert_eq!(AVAuthorizationStatus::from(42), AVAuthorizationStatus::NotDetermined);
    assert_eq!(AVAuthorizationStatus::from(-1), AVAuthorizationStatus::NotDetermined);
    for raw in 0..4 {
        assert_eq!(AVAuthorizationStatus::from(raw).raw_value(), raw);
    }
}

#[test]
fn permission_request_decisions() {
    assert_eq!(initial_permission(AVAuthorizationStatus::Authorized), Some(true));
    assert_eq!(initial_permission(AVAuthorizationStatus::Denied), Some(false));
    assert_eq!(initial_permission(AVAuthorizationStatus::Restricted), Some(false));
    assert_eq!(initial_permission(AVAuthorizationStatus::NotDetermined), None);
    assert_eq!(poll_permission(AVAuthorizationStatus::NotDetermined, 500, 60_000), None);
    assert_eq!(poll_permission(AVAuthorizationStatus::NotDetermined, 60_001, 60_000), Some(false));
    assert_eq!(poll_permission(AVAuthorizationStatus::Authorized, 60_001, 60_000), Some(true));
}
