use std::collections::HashMap;

use swictation::display_server::{
    selection_error_message, SessionVars, classify_display_server, detect_available_tools, detect_display_server_with_env,
    select_best_tool, DisplayServer, EnvProvider, TextInjectionTool, ToolSelectionError,
};

struct EmptyEnv {
    vars: HashMap<String, String>,
}

impl EnvProvider for EmptyEnv {
    fn get(&self, key: &str) -> Option<String> {
        self.vars.get(key).cloned()
    }
}

#[test]
fn test_tool_command_names() {
    assert_eq!(TextInjectionTool::Xdotool.command(), "xdotool");
    assert_eq!(TextInjectionTool::Wtype.command(), "wtype");
    assert_eq!(TextInjectionTool::Ydotool.command(), "ydotool");
}

#[test]
fn test_display_server_detection() {
    // Detection must not panic, whatever the environment holds.
    let env = EmptyEnv { vars: HashMap::new() };
    let info = detect_display_server_with_env(&env);
    println!("Detected: {:?}", info);
}

#[test]
fn test_tool_detection() {
    let tools = detect_available_tools(true, false, true);
    println!("Available tools: {:?}", tools);
    assert_eq!(tools, vec![TextInjectionTool::Xdotool, TextInjectionTool::Ydotool]);
    assert!(detect_available_tools(false, false, false).is_empty());
}

fn info(session: &str, desktop: Option<&str>) -> swictation::display_server::DisplayServerInfo {
    classify_display_server(
        Some(session.to_string()),
        desktop.map(|d| d.to_string()),
        if session == "wayland" { Some("wayland-0".to_string()) } else { None },
        if session == "x11" { Some(":0".to_string()) } else { None },
    )
}

#[test]
fn gnome_wayland_requires_ydotool() {
    let gnome = info("wayland", Some("GNOME"));
    assert!(gnome.is_gnome_wayland);
    let all = [TextInjectionTool::Xdotool, TextInjectionTool::Wtype, TextInjectionTool::Ydotool];
    assert_eq!(select_best_tool(&gnome, &all), Ok(TextInjectionTool::Ydotool));
    let no_ydotool = [TextInjectionTool::Wtype];
    assert_eq!(
        select_best_tool(&gnome, &no_ydotool),
        Err(ToolSelectionError::GnomeWaylandToolMissing)
    );
}

#[test]
fn wayland_prefers_wtype_then_ydotool() {
    let kde = info("wayland", Some("KDE"));
    assert_eq!(kde.server_type, DisplayServer::Wayland);
    let all = [TextInjectionTool::Ydotool, TextInjectionTool::Wtype];
    assert_eq!(select_best_tool(&kde, &all), Ok(TextInjectionTool::Wtype));
    assert_eq!(
        select_best_tool(&kde, &[TextInjectionTool::Ydotool]),
        Ok(TextInjectionTool::Ydotool)
    );
    assert_eq!(
        select_best_tool(&kde, &[TextInjectionTool::Xdotool]),
        Err(ToolSelectionError::WaylandToolMissing)
    );
}

#[test]
fn x11_prefers_xdotool_then_ydotool() {
    let x11 = info("x11", None);
    assert_eq!(x11.server_type, DisplayServer::X11);
    let all = [TextInjectionTool::Ydotool, TextInjectionTool::Xdotool];
    assert_eq!(select_best_tool(&x11, &all), Ok(TextInjectionTool::Xdotool));
    assert_eq!(
        select_best_tool(&x11, &[TextInjectionTool::Wtype]),
        Err(ToolSelectionError::X11ToolMissing)
    );
}

#[test]
fn unknown_server_tries_ydotool_first() {
    let env = EmptyEnv { vars: HashMap::new() };
    let unknown = detect_display_server_with_env(&env);
    assert_eq!(unknown.server_type, DisplayServer::Unknown);
    assert_eq!(
        select_best_tool(&unknown, &[TextInjectionTool::Wtype, TextInjectionTool::Ydotool]),
        Ok(TextInjectionTool::Ydotool)
    );
    assert_eq!(
        select_best_tool(&unknown, &[TextInjectionTool::Wtype]),
        Ok(TextInjectionTool::Wtype)
    );
    assert_eq!(select_best_tool(&unknown, &[]), Err(ToolSelectionError::NoToolFound));
}

#[test]
fn tool_names_match_commands() {
    for tool in [TextInjectionTool::Xdotool, TextInjectionTool::Wtype, TextInjectionTool::Ydotool] {
        assert_eq!(tool.name(), tool.command());
    }
}

#[test]
fn selection_errors_report_the_environment() {
    let x11 = info("x11", None);
    let vars = SessionVars {
        display: Some(":0".to_string()),
        wayland_display: None,
        session_type: Some("x11".to_string()),
        current_desktop: None,
    };
    let msg = selection_error_message(ToolSelectionError::X11ToolMissing, &x11, &vars);
    assert!(msg.starts_with("Error: Text injection tool not found for X11\n\nRequired tool: xdotool\n"));
    assert!(msg.ends_with("  Display Server:    X11\n  DISPLAY:           :0\n  XDG_SESSION_TYPE:  x11\n  Desktop:           unknown"));

    let gnome = info("wayland", Some("GNOME"));
    let vars = SessionVars {
        display: None,
        wayland_display: Some("wayland-0".to_string()),
        session_type: Some("wayland".to_string()),
        current_desktop: None,
    };
    let msg = selection_error_message(ToolSelectionError::GnomeWaylandToolMissing, &gnome, &vars);
    assert!(msg.starts_with("Error: GNOME Wayland requires ydotool\n"));
    assert!(msg.contains("  Desktop:               GNOME\n  WAYLAND_DISPLAY:       wayland-0\n  XDG_SESSION_TYPE:      wayland\n  XDG_CURRENT_DESKTOP:   not set\n"));
    assert!(msg.ends_with("that wtype requires. ydotool uses kernel uinput instead."));

    let msg = selection_error_message(ToolSelectionError::NoToolFound, &gnome, &vars);
    assert!(msg.starts_with("Error: Could not detect display server and no text injection tools found\n"));
    assert!(msg.ends_with("  XDG_CURRENT_DESKTOP:  not set"));
}
