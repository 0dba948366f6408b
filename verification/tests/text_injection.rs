use swictation::display_server::{
    ConfidenceLevel, DisplayServer, DisplayServerInfo, TextInjectionTool, ToolSelectionError,
};
use swictation::text_injection::{
    injection_command, injection_failure_message, InjectorError, TextInjector,
};

fn info(server: DisplayServer, gnome: bool) -> DisplayServerInfo {
    DisplayServerInfo {
        server_type: server,
        desktop_environment: None,
        is_gnome_wayland: gnome,
        confidence: ConfidenceLevel::High,
    }
}

#[test]
fn markers_are_passed_as_literal_text() {
    for text in [
        "Hello, world!",
        "Press <KEY:ctrl-c> to copy",
        "<KEY:super-Right>",
        "--help",
    ] {
        let (program, args) = injection_command(TextInjectionTool::Xdotool, text);
        assert_eq!(program, "xdotool");
        assert_eq!(args, vec!["type", "--clearmodifiers", "--", text]);
        let (program, args) = injection_command(TextInjectionTool::Wtype, text);
        assert_eq!(program, "wtype");
        assert_eq!(args, vec!["--", text]);
        let (program, args) = injection_command(TextInjectionTool::Ydotool, text);
        assert_eq!(program, "ydotool");
        assert_eq!(args, vec!["type", "--", text]);
    }
}

#[test]
fn test_empty_text() {
    let injector =
        TextInjector::new(info(DisplayServer::X11, false), &[TextInjectionTool::Xdotool]).unwrap();
    assert!(injector.command_for("").is_none());
    assert!(injector.command_for("x").is_some());
}

#[test]
fn injector_setup() {
    assert_eq!(
        TextInjector::new(info(DisplayServer::X11, false), &[]).err(),
        Some(InjectorError::NoToolsFound)
    );
    assert_eq!(
        TextInjector::new(info(DisplayServer::Wayland, true), &[TextInjectionTool::Wtype]).err(),
        Some(InjectorError::Selection(ToolSelectionError::GnomeWaylandToolMissing))
    );
    let inj = TextInjector::new(
        info(DisplayServer::Wayland, true),
        &[TextInjectionTool::Wtype, TextInjectionTool::Ydotool],
    )
    .unwrap();
    assert_eq!(inj.selected_tool(), TextInjectionTool::Ydotool);
    assert!(inj.display_server_info().is_gnome_wayland);
}

#[test]
fn failure_messages() {
    assert_eq!(
        injection_failure_message(TextInjectionTool::Xdotool, "bad"),
        "xdotool type command failed: bad"
    );
    assert_eq!(
        injection_failure_message(TextInjectionTool::Wtype, "bad"),
        "wtype command failed: bad"
    );
    assert_eq!(
        injection_failure_message(TextInjectionTool::Ydotool, "bad"),
        "ydotool type command failed: bad"
    );
    assert_eq!(
        injection_failure_message(TextInjectionTool::Ydotool, "open: Permission denied"),
        "ydotool permission denied. Add user to input group:\n  sudo usermod -aG input $USER\n  Then log out and back in.\n\nError: open: Permission denied"
    );
}

#[test]
fn test_text_injector_creation() {
    let result = TextInjector::new(
        info(DisplayServer::X11, false),
        &[TextInjectionTool::Xdotool, TextInjectionTool::Ydotool],
    );
    match result {
        Ok(injector) => println!(
            "Created text injector: {:?} using {}",
            injector.display_server_info().server_type,
            injector.selected_tool().name()
        ),
        Err(e) => panic!("creation should succeed with xdotool installed: {:?}", e),
    }
}

#[test]
fn text_injection_test_key_markers_are_typed_not_pressed() {
    for text in [
        "Hello, world!",
        "Press <KEY:ctrl-c> to copy",
        "<KEY:super-Right>",
        "Multiple <KEY:ctrl-a> keys <KEY:ctrl-v>",
        // Previously aborted injection with "Malformed KEY marker"
        "unterminated <KEY:ctrl-a",
    ] {
        for tool in [
            TextInjectionTool::Xdotool,
            TextInjectionTool::Wtype,
            TextInjectionTool::Ydotool,
        ] {
            let (_, args) = injection_command(tool, text);
            assert!(
                args.len() >= 2 && args[args.len() - 2] == "--" && args[args.len() - 1] == text,
                "literal injection should succeed for {text:?}"
            );
        }
    }
}
