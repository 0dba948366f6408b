//! Display server detection across environment variable combinations:
//! X11, Wayland (KDE, GNOME, Sway), XWayland and headless sessions.

use std::collections::HashMap;

use swictation::display_server::{
    detect_display_server_with_env, ConfidenceLevel, DisplayServer, DisplayServerInfo,
    EnvProvider,
};

struct MockEnv {
    vars: HashMap<String, String>,
}

impl MockEnv {
    fn new(vars: HashMap<String, String>) -> Self {
        Self { vars }
    }
}

impl EnvProvider for MockEnv {
    fn get(&self, key: &str) -> Option<String> {
        self.vars.get(key).cloned()
    }
}

fn detect_with_env(env: HashMap<String, String>) -> DisplayServerInfo {
    let mock_env = MockEnv::new(env);
    detect_display_server_with_env(&mock_env)
}

fn x11_env() -> HashMap<String, String> {
    let mut env = HashMap::new();
    env.insert("DISPLAY".to_string(), ":0".to_string());
    env.insert("XDG_SESSION_TYPE".to_string(), "x11".to_string());
    env
}

fn wayland_kde_env() -> HashMap<String, String> {
    let mut env = HashMap::new();
    env.insert("WAYLAND_DISPLAY".to_string(), "wayland-0".to_string());
    env.insert("XDG_SESSION_TYPE".to_string(), "wayland".to_string());
    env.insert("XDG_CURRENT_DESKTOP".to_string(), "KDE".to_string());
    env
}

fn wayland_gnome_env() -> HashMap<String, String> {
    let mut env = HashMap::new();
    env.insert("WAYLAND_DISPLAY".to_string(), "wayland-0".to_string());
    env.insert("XDG_SESSION_TYPE".to_string(), "wayland".to_string());
    env.insert("XDG_CURRENT_DESKTOP".to_string(), "GNOME".to_string());
    env
}

fn sway_env() -> HashMap<String, String> {
    let mut env = HashMap::new();
    env.insert(
        "SWAYSOCK".to_string(),
        "/run/user/1000/sway-ipc.sock".to_string(),
    );
    env.insert("WAYLAND_DISPLAY".to_string(), "wayland-0".to_string());
    env.insert("XDG_SESSION_TYPE".to_string(), "wayland".to_string());
    env.insert("XDG_CURRENT_DESKTOP".to_string(), "sway".to_string());
    env
}

fn xwayland_env() -> HashMap<String, String> {
    let mut env = HashMap::new();
    env.insert("DISPLAY".to_string(), ":0".to_string());
    env.insert("WAYLAND_DISPLAY".to_string(), "wayland-0".to_string());
    env.insert("XDG_SESSION_TYPE".to_string(), "wayland".to_string());
    env.insert("XDG_CURRENT_DESKTOP".to_string(), "GNOME".to_string());
    env
}

fn headless_env() -> HashMap<String, String> {
    HashMap::new()
}

fn ambiguous_env() -> HashMap<String, String> {
    let mut env = HashMap::new();
    env.insert("DISPLAY".to_string(), ":0".to_string());
    env
}

#[test]
fn test_x11_pure_detection() {
    let env = x11_env();
    let info = detect_with_env(env);

    assert_eq!(info.server_type, DisplayServer::X11);
    assert_eq!(info.confidence, ConfidenceLevel::High);
    assert_eq!(info.is_gnome_wayland, false);
}

#[test]
fn test_wayland_kde_detection() {
    let env = wayland_kde_env();
    let info = detect_with_env(env);

    assert_eq!(info.server_type, DisplayServer::Wayland);
    assert_eq!(info.confidence, ConfidenceLevel::High);
    assert_eq!(info.is_gnome_wayland, false);
    assert_eq!(info.desktop_environment, Some("KDE".to_string()));
}

#[test]
fn test_wayland_gnome_detection() {
    let env = wayland_gnome_env();
    let info = detect_with_env(env);

    assert_eq!(info.server_type, DisplayServer::Wayland);
    assert_eq!(info.confidence, ConfidenceLevel::High);
    assert_eq!(info.is_gnome_wayland, true);
    assert_eq!(info.desktop_environment, Some("GNOME".to_string()));
}

#[test]
fn test_xwayland_detection() {
    let env = xwayland_env();
    let info = detect_with_env(env);

    assert_eq!(info.server_type, DisplayServer::Wayland);
    assert_eq!(info.confidence, ConfidenceLevel::High);
}

#[test]
fn test_sway_detection() {
    let env = sway_env();
    let info = detect_with_env(env);

    assert_eq!(info.server_type, DisplayServer::Wayland);
    assert_eq!(info.confidence, ConfidenceLevel::High);
    assert_eq!(info.is_gnome_wayland, false);
}

#[test]
fn test_headless_detection() {
    let env = headless_env();
    let info = detect_with_env(env);

    assert_eq!(info.server_type, DisplayServer::Unknown);
    assert_eq!(info.confidence, ConfidenceLevel::Low);
    assert_eq!(info.is_gnome_wayland, false);
}

#[test]
fn test_ambiguous_old_system() {
    let env = ambiguous_env();
    let info = detect_with_env(env);

    assert_eq!(info.server_type, DisplayServer::X11);
    assert_eq!(info.confidence, ConfidenceLevel::Low);
}

#[test]
fn test_confidence_scoring_x11() {
    let env = x11_env();
    let info = detect_with_env(env);

    assert_eq!(info.confidence, ConfidenceLevel::High);
}

#[test]
fn test_confidence_scoring_wayland() {
    let env = wayland_kde_env();
    let info = detect_with_env(env);

    assert_eq!(info.confidence, ConfidenceLevel::High);
}

#[test]
fn test_gnome_variations() {
    let test_cases = vec![
        "GNOME",
        "ubuntu:GNOME",
        "GNOME:GNOME",
        "gnome",
        "Gnome",
        "Ubuntu:gnome",
    ];

    for desktop_var in test_cases {
        let mut env = HashMap::new();
        env.insert("WAYLAND_DISPLAY".to_string(), "wayland-0".to_string());
        env.insert("XDG_SESSION_TYPE".to_string(), "wayland".to_string());
        env.insert("XDG_CURRENT_DESKTOP".to_string(), desktop_var.to_string());

        let info = detect_with_env(env);

        assert_eq!(
            info.is_gnome_wayland, true,
            "Failed to detect GNOME for desktop environment: {}",
            desktop_var
        );
    }
}

#[test]
fn test_desktop_environment_parsing() {
    let test_cases = vec![
        ("KDE", false),
        ("GNOME", true),
        ("ubuntu:GNOME", true),
        ("XFCE", false),
        ("Hyprland", false),
        ("sway", false),
        ("i3", false),
        ("MATE", false),
    ];

    for (desktop, should_be_gnome) in test_cases {
        let mut env = HashMap::new();
        env.insert("WAYLAND_DISPLAY".to_string(), "wayland-0".to_string());
        env.insert("XDG_SESSION_TYPE".to_string(), "wayland".to_string());
        env.insert("XDG_CURRENT_DESKTOP".to_string(), desktop.to_string());

        let info = detect_with_env(env);

        assert_eq!(
            info.is_gnome_wayland, should_be_gnome,
            "Incorrect GNOME detection for desktop environment: {}",
            desktop
        );
    }
}

#[test]
fn test_wayland_without_xdg_session_type() {
    let mut env = HashMap::new();
    env.insert("WAYLAND_DISPLAY".to_string(), "wayland-0".to_string());

    let info = detect_with_env(env);

    assert_eq!(info.server_type, DisplayServer::Wayland);
    assert_eq!(info.confidence, ConfidenceLevel::Medium);
}

#[test]
fn test_x11_wayland_tie() {
    let mut env = HashMap::new();
    env.insert("DISPLAY".to_string(), ":0".to_string());
    env.insert("WAYLAND_DISPLAY".to_string(), "wayland-0".to_string());

    let info = detect_with_env(env);

    assert_eq!(info.server_type, DisplayServer::Wayland);
    assert_eq!(info.confidence, ConfidenceLevel::Medium);
}

#[test]
fn test_gnome_on_x11() {
    let mut env = HashMap::new();
    env.insert("DISPLAY".to_string(), ":0".to_string());
    env.insert("XDG_SESSION_TYPE".to_string(), "x11".to_string());
    env.insert("XDG_CURRENT_DESKTOP".to_string(), "GNOME".to_string());

    let info = detect_with_env(env);

    assert_eq!(info.server_type, DisplayServer::X11);
    assert_eq!(info.is_gnome_wayland, false);
}

#[test]
fn test_confidence_levels() {
    let mut env = HashMap::new();
    env.insert("XDG_SESSION_TYPE".to_string(), "x11".to_string());
    let info = detect_with_env(env.clone());
    assert_eq!(info.confidence, ConfidenceLevel::High);

    env.clear();
    env.insert("WAYLAND_DISPLAY".to_string(), "wayland-0".to_string());
    let info = detect_with_env(env.clone());
    assert_eq!(info.confidence, ConfidenceLevel::Medium);

    env.clear();
    env.insert("DISPLAY".to_string(), ":0".to_string());
    let info = detect_with_env(env);
    assert_eq!(info.confidence, ConfidenceLevel::Low);
}

#[test]
fn exact_session_type_tie_is_unknown() {
    // XDG_SESSION_TYPE=tty gives no evidence either way.
    let mut env = HashMap::new();
    env.insert("XDG_SESSION_TYPE".to_string(), "tty".to_string());
    let info = detect_with_env(env);
    assert_eq!(info.server_type, DisplayServer::Unknown);
    assert_eq!(info.confidence, ConfidenceLevel::Low);
    assert_eq!(info.desktop_environment, None);
}

#[test]
fn test_x11_fixture() {
    let env = x11_env();
    assert_eq!(env.get("DISPLAY"), Some(&":0".to_string()));
    assert_eq!(env.get("XDG_SESSION_TYPE"), Some(&"x11".to_string()));
    assert!(env.get("WAYLAND_DISPLAY").is_none());
}

#[test]
fn test_gnome_wayland_fixture() {
    let env = wayland_gnome_env();
    assert_eq!(env.get("XDG_CURRENT_DESKTOP"), Some(&"GNOME".to_string()));
    assert_eq!(env.get("XDG_SESSION_TYPE"), Some(&"wayland".to_string()));
}

#[test]
fn test_xwayland_fixture() {
    let env = xwayland_env();
    assert!(env.contains_key("DISPLAY"));
    assert!(env.contains_key("WAYLAND_DISPLAY"));
    assert_eq!(env.get("XDG_SESSION_TYPE"), Some(&"wayland".to_string()));
}
