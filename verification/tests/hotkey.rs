use swictation::display_server::{ConfidenceLevel, DisplayServer, DisplayServerInfo};
use swictation::hotkey::{
    classify_hotkey_event, detect_hotkey_server, hotkey_backend, parse_hotkey, parse_key_code,
    sway_binding_exists, sway_config_with_hotkeys, sway_has_hotkeys, sway_key, HotkeyBackendKind,
    HotkeyDisplayServer, HotkeyError, HotkeyEvent, KeyCode,
};

#[test]
fn test_parse_hotkey() {
    let hotkey = parse_hotkey("Ctrl+Shift+R").unwrap();
    assert!(hotkey.mods.control);
    assert!(hotkey.mods.shift);
    assert_eq!(hotkey.key, KeyCode::KeyR);

    let hotkey = parse_hotkey("Alt+F4").unwrap();
    assert!(hotkey.mods.alt);
    assert_eq!(hotkey.key, KeyCode::F4);

    let hotkey = parse_hotkey("Ctrl+Space").unwrap();
    assert!(hotkey.mods.control);
    assert_eq!(hotkey.key, KeyCode::Space);
}

#[test]
fn test_parse_key_code() {
    assert_eq!(parse_key_code("r").unwrap(), KeyCode::KeyR);
    assert_eq!(parse_key_code("space").unwrap(), KeyCode::Space);
    assert_eq!(parse_key_code("f4").unwrap(), KeyCode::F4);
    assert!(parse_key_code("invalid").is_err());
}

#[test]
fn hotkey_parts_are_trimmed_and_case_insensitive() {
    let hotkey = parse_hotkey(" super + SHIFT + d ").unwrap();
    assert!(hotkey.mods.super_key && hotkey.mods.shift);
    assert!(!hotkey.mods.control && !hotkey.mods.alt);
    assert_eq!(hotkey.key, KeyCode::KeyD);
    assert_eq!(parse_hotkey("Cmd+Return").unwrap().key, KeyCode::Enter);
    assert_eq!(parse_hotkey("Win+Esc").unwrap().key, KeyCode::Escape);
    assert_eq!(parse_hotkey("Ctrl+A+B").unwrap().key, KeyCode::KeyB);
}

#[test]
fn malformed_hotkeys_are_rejected() {
    assert_eq!(parse_hotkey("Ctrl+Shift"), Err(HotkeyError::NoKeyCode));
    assert_eq!(parse_hotkey("Ctrl+"), Err(HotkeyError::UnknownKey(String::new())));
    assert_eq!(
        parse_hotkey("Ctrl+Banana+R"),
        Err(HotkeyError::UnknownKey("banana".to_string()))
    );
    assert_eq!(parse_key_code("F13"), Err(HotkeyError::UnknownKey("F13".to_string())));
}

#[test]
fn hotkey_events_are_classified() {
    assert_eq!(classify_hotkey_event(1, true, 1, 2), Some(HotkeyEvent::Toggle));
    assert_eq!(classify_hotkey_event(1, false, 1, 2), None);
    assert_eq!(classify_hotkey_event(2, true, 1, 2), Some(HotkeyEvent::PushToTalkPressed));
    assert_eq!(classify_hotkey_event(2, false, 1, 2), Some(HotkeyEvent::PushToTalkReleased));
    assert_eq!(classify_hotkey_event(3, true, 1, 2), None);
}

fn base(server: DisplayServer) -> DisplayServerInfo {
    DisplayServerInfo {
        server_type: server,
        desktop_environment: None,
        is_gnome_wayland: false,
        confidence: ConfidenceLevel::High,
    }
}

#[test]
fn sway_is_recognised_only_with_its_socket() {
    let wl = base(DisplayServer::Wayland);
    assert_eq!(detect_hotkey_server(true, Some("sway"), false, &wl), HotkeyDisplayServer::Sway);
    assert_eq!(detect_hotkey_server(true, Some("KDE"), true, &wl), HotkeyDisplayServer::Wayland);
    assert_eq!(detect_hotkey_server(true, None, true, &wl), HotkeyDisplayServer::Sway);
    assert_eq!(detect_hotkey_server(false, Some("sway"), true, &wl), HotkeyDisplayServer::Wayland);
    assert_eq!(
        detect_hotkey_server(false, None, false, &base(DisplayServer::X11)),
        HotkeyDisplayServer::X11
    );
    assert_eq!(
        detect_hotkey_server(false, None, false, &base(DisplayServer::Unknown)),
        HotkeyDisplayServer::Headless
    );
    assert_eq!(hotkey_backend(HotkeyDisplayServer::X11), HotkeyBackendKind::GlobalHotkey);
    assert_eq!(hotkey_backend(HotkeyDisplayServer::Sway), HotkeyBackendKind::SwayIpc);
    assert_eq!(hotkey_backend(HotkeyDisplayServer::Headless), HotkeyBackendKind::Unavailable);
}

#[test]
fn sway_configuration_block() {
    assert_eq!(sway_key("Super+Shift+D"), "$mod+Shift+D");
    assert!(!sway_has_hotkeys("bindsym $mod+d exec dmenu"));
    assert!(sway_binding_exists("bindsym $mod+Shift+D exec x", "$mod+Shift+D"));
    let updated = sway_config_with_hotkeys("# existing\n", "Super+Shift+D", "Super+Space");
    let expected = "# existing\n\n# Swictation voice-to-text hotkeys (auto-configured)\n# Toggle: Super+Shift+D\n# Push-to-talk: Super+Space\nbindsym $mod+Shift+D exec swictation toggle\nbindsym $mod+Space exec sh -c \"echo '{\\\"action\\\":\\\"toggle\\\"}' | nc -U $XDG_RUNTIME_DIR/swictation.sock\"\nbindsym --release $mod+Space exec sh -c \"echo '{\\\"action\\\":\\\"toggle\\\"}' | nc -U $XDG_RUNTIME_DIR/swictation.sock\"\n";
    assert_eq!(updated, expected);
    assert!(sway_has_hotkeys(&updated));
}
