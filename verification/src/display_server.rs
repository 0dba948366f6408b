//! Display server detection and text injection tool selection.
//!
//! X11 and Wayland are told apart by evidence-based scoring over the session
//! environment, with special handling for GNOME on Wayland, whose compositor
//! lacks the virtual-keyboard protocol that wtype needs.
//!
//! Tool compatibility:
//! - xdotool: X11 only (fast, mature)
//! - wtype: Wayland only (KDE, Sway, Hyprland work; GNOME does NOT)
//! - ydotool: Universal (X11, all Wayland compositors, even TTY)
use vstd::prelude::*;

use crate::text;

verus! {

/// Access to environment variables, so that detection can run against a
/// mock environment.
pub trait EnvProvider {
    fn get(&self, key: &str) -> Option<String>;
}

/// Display server type.
#[derive(Debug, Clone, Copy, PartialEq, Eq, Structural)]
pub enum DisplayServer {
    X11,
    Wayland,
    Unknown,
}

/// Text injection tool options.
#[derive(Debug, Clone, Copy, PartialEq, Eq, Structural)]
pub enum TextInjectionTool {
    /// xdotool - X11 text injection (fast, mature)
    Xdotool,
    /// wtype - Wayland text injection (compatible with KDE, Sway, Hyprland)
    Wtype,
    /// ydotool - Universal text injection (works everywhere via kernel uinput)
    Ydotool,
}

/// The command that runs `tool`.
pub open spec fn tool_command(tool: TextInjectionTool) -> Seq<char> {
    match tool {
        TextInjectionTool::Xdotool => "xdotool"@,
        TextInjectionTool::Wtype => "wtype"@,
        TextInjectionTool::Ydotool => "ydotool"@,
    }
}

impl TextInjectionTool {
    /// The command name for this tool.
    pub fn command(&self) -> (r: &'static str)
        ensures
            r@ == tool_command(*self),
    {
        match self {
            TextInjectionTool::Xdotool => "xdotool",
            TextInjectionTool::Wtype => "wtype",
            TextInjectionTool::Ydotool => "ydotool",
        }
    }

    /// The human-readable tool name.
    pub fn name(&self) -> (r: &'static str)
        ensures
            r@ == tool_command(*self),
    {
        match self {
            TextInjectionTool::Xdotool => "xdotool",
            TextInjectionTool::Wtype => "wtype",
            TextInjectionTool::Ydotool => "ydotool",
        }
    }
}

/// Confidence level in display server detection.
#[derive(Debug, Clone, Copy, PartialEq, Eq, Structural)]
pub enum ConfidenceLevel {
    /// High confidence (4 or more evidence points)
    High,
    /// Medium confidence (2-3 evidence points)
    Medium,
    /// Low confidence (fewer than 2 evidence points)
    Low,
}

/// Detailed display server information.
#[derive(Debug, Clone)]
pub struct DisplayServerInfo {
    /// Detected display server type
    pub server_type: DisplayServer,
    /// Desktop environment (e.g., "GNOME", "KDE", "Sway")
    pub desktop_environment: Option<String>,
    /// Whether this is GNOME running on Wayland (requires ydotool)
    pub is_gnome_wayland: bool,
    /// Confidence level in detection
    pub confidence: ConfidenceLevel,
}

/// X11 evidence: 4 points for `XDG_SESSION_TYPE=x11`, 1 for `DISPLAY`.
pub open spec fn x11_score(session_type: Option<Seq<char>>, display_set: bool) -> nat {
    (if session_type == Some("x11"@) {
        4nat
    } else {
        0nat
    }) + (if display_set {
        1nat
    } else {
        0nat
    })
}

/// Wayland evidence: 4 points for `XDG_SESSION_TYPE=wayland`, 2 for
/// `WAYLAND_DISPLAY`.
pub open spec fn wayland_score(session_type: Option<Seq<char>>, wayland_set: bool) -> nat {
    (if session_type == Some("wayland"@) {
        4nat
    } else {
        0nat
    }) + (if wayland_set {
        2nat
    } else {
        0nat
    })
}

/// Confidence for a winning score.
pub open spec fn confidence_for(score: nat) -> ConfidenceLevel {
    if score >= 4 {
        ConfidenceLevel::High
    } else if score >= 2 {
        ConfidenceLevel::Medium
    } else {
        ConfidenceLevel::Low
    }
}

/// The server with the higher score wins; a tie is `Unknown`.
pub open spec fn detected_server(x11: nat, wayland: nat) -> DisplayServer {
    if wayland > x11 {
        DisplayServer::Wayland
    } else if x11 > wayland {
        DisplayServer::X11
    } else {
        DisplayServer::Unknown
    }
}

pub open spec fn detected_confidence(x11: nat, wayland: nat) -> ConfidenceLevel {
    if wayland > x11 {
        confidence_for(wayland)
    } else if x11 > wayland {
        confidence_for(x11)
    } else {
        ConfidenceLevel::Low
    }
}

pub open spec fn opt_view(o: Option<String>) -> Option<Seq<char>> {
    match o {
        Some(s) => Some(s@),
        None => None,
    }
}

/// GNOME on Wayland: the server is Wayland and the lowercase desktop name
/// contains "gnome".
pub open spec fn gnome_wayland(server: DisplayServer, desktop: Option<Seq<char>>) -> bool {
    server == DisplayServer::Wayland && match desktop {
        Some(d) => text::contains_seq(text::lower_str(d), "gnome"@),
        None => false,
    }
}

/// The detection result for the given environment values: what
/// `XDG_SESSION_TYPE`, `XDG_CURRENT_DESKTOP`, `WAYLAND_DISPLAY` and `DISPLAY`
/// hold.
pub open spec fn detection_holds(
    info: DisplayServerInfo,
    session_type: Option<Seq<char>>,
    desktop: Option<Seq<char>>,
    wayland_set: bool,
    display_set: bool,
) -> bool {
    let x = x11_score(session_type, display_set);
    let w = wayland_score(session_type, wayland_set);
    &&& info.server_type == detected_server(x, w)
    &&& info.confidence == detected_confidence(x, w)
    &&& opt_view(info.desktop_environment) == desktop
    &&& info.is_gnome_wayland == gnome_wayland(detected_server(x, w), desktop)
}

fn score_confidence(score: u32) -> (r: ConfidenceLevel)
    ensures
        r == confidence_for(score as nat),
{
    if score >= 4 {
        ConfidenceLevel::High
    } else if score >= 2 {
        ConfidenceLevel::Medium
    } else {
        ConfidenceLevel::Low
    }
}

/// Detects the display server from the values of `XDG_SESSION_TYPE`,
/// `XDG_CURRENT_DESKTOP`, `WAYLAND_DISPLAY` and `DISPLAY`.
pub fn classify_display_server(
    session_type: Option<String>,
    desktop: Option<String>,
    wayland_display: Option<String>,
    x11_display: Option<String>,
) -> (r: DisplayServerInfo)
    ensures
        detection_holds(
            r,
            opt_view(session_type),
            opt_view(desktop),
            wayland_display is Some,
            x11_display is Some,
        ),
{
    let mut x11_score: u32 = 0;
    let mut wayland_score: u32 = 0;
    match &session_type {
        Some(st) => {
            if text::chars_eq_str(text::chars_of(st.as_str()).as_slice(), "x11") {
                x11_score = x11_score + 4;
            } else if text::chars_eq_str(text::chars_of(st.as_str()).as_slice(), "wayland") {
                wayland_score = wayland_score + 4;
            }
        },
        None => {},
    }
    proof {
        reveal_strlit("x11");
        reveal_strlit("wayland");
        assert("x11"@.len() != "wayland"@.len());
    }
    if wayland_display.is_some() {
        wayland_score = wayland_score + 2;
    }
    if x11_display.is_some() {
        x11_score = x11_score + 1;
    }
    let (server_type, confidence) = if wayland_score > x11_score {
        (DisplayServer::Wayland, score_confidence(wayland_score))
    } else if x11_score > wayland_score {
        (DisplayServer::X11, score_confidence(x11_score))
    } else {
        (DisplayServer::Unknown, ConfidenceLevel::Low)
    };
    let is_gnome_wayland = match &desktop {
        Some(d) => {
            if server_type == DisplayServer::Wayland {
                let lower = text::to_lowercase(d.as_str());
                let lc = text::chars_of(lower.as_str());
                let gnome = text::chars_of("gnome");
                text::contains(lc.as_slice(), gnome.as_slice())
            } else {
                false
            }
        },
        None => false,
    };
    DisplayServerInfo {
        server_type,
        desktop_environment: desktop,
        is_gnome_wayland,
        confidence,
    }
}

/// Detects the display server from the environment that `env` provides,
/// scoring the evidence: `XDG_SESSION_TYPE` (4 points), `WAYLAND_DISPLAY`
/// (2 points for Wayland) and `DISPLAY` (1 point for X11).
///
/// Each of the four variables is read once through `env.get`; the result is
/// the classification of the four values that those reads returned.
pub fn detect_display_server_with_env<E: EnvProvider>(env: &E) -> (r: DisplayServerInfo)
    ensures
        exists|a: Option<String>, b: Option<String>, c: Option<String>, d: Option<String>|
            {
                &&& call_ensures(E::get, (env, "XDG_SESSION_TYPE"), a)
                &&& call_ensures(E::get, (env, "XDG_CURRENT_DESKTOP"), b)
                &&& call_ensures(E::get, (env, "WAYLAND_DISPLAY"), c)
                &&& call_ensures(E::get, (env, "DISPLAY"), d)
                &&& detection_holds(r, opt_view(a), opt_view(b), c is Some, d is Some)
            },
{
    let session_type = env.get("XDG_SESSION_TYPE");
    let desktop = env.get("XDG_CURRENT_DESKTOP");
    let wayland_display = env.get("WAYLAND_DISPLAY");
    let x11_display = env.get("DISPLAY");
    let ghost a = session_type;
    let ghost b = desktop;
    let ghost c = wayland_display;
    let ghost d = x11_display;
    let r = classify_display_server(session_type, desktop, wayland_display, x11_display);
    assert(call_ensures(E::get, (env, "XDG_SESSION_TYPE"), a));
    assert(call_ensures(E::get, (env, "XDG_CURRENT_DESKTOP"), b));
    assert(call_ensures(E::get, (env, "WAYLAND_DISPLAY"), c));
    assert(call_ensures(E::get, (env, "DISPLAY"), d));
    assert(detection_holds(r, opt_view(a), opt_view(b), c is Some, d is Some));
    r
}

/// The tools found on the system, in the order xdotool, wtype, ydotool.
pub open spec fn available_tools(xdotool: bool, wtype: bool, ydotool: bool) -> Seq<
    TextInjectionTool,
> {
    let a = if xdotool {
        seq![TextInjectionTool::Xdotool]
    } else {
        seq![]
    };
    let b = if wtype {
        a.push(TextInjectionTool::Wtype)
    } else {
        a
    };
    if ydotool {
        b.push(TextInjectionTool::Ydotool)
    } else {
        b
    }
}

/// The available text injection tools, given which of xdotool, wtype and
/// ydotool were found on the system.
pub fn detect_available_tools(xdotool: bool, wtype: bool, ydotool: bool) -> (r: Vec<
    TextInjectionTool,
>)
    ensures
        r@ == available_tools(xdotool, wtype, ydotool),
{
    let mut tools: Vec<TextInjectionTool> = Vec::new();
    if xdotool {
        tools.push(TextInjectionTool::Xdotool);
    }
    if wtype {
        tools.push(TextInjectionTool::Wtype);
    }
    if ydotool {
        tools.push(TextInjectionTool::Ydotool);
    }
    assert(tools@ =~= available_tools(xdotool, wtype, ydotool));
    tools
}

/// Why no tool could be selected; each names the environment it was
/// detected in.
#[derive(Debug, Clone, Copy, PartialEq, Eq, Structural)]
pub enum ToolSelectionError {
    /// X11 without xdotool or ydotool
    X11ToolMissing,
    /// GNOME on Wayland without ydotool
    GnomeWaylandToolMissing,
    /// Other Wayland compositor without wtype or ydotool
    WaylandToolMissing,
    /// Unknown display server and no tool at all
    NoToolFound,
}

/// The tool chosen for the environment among `tools`:
/// - X11: xdotool, else ydotool;
/// - GNOME on Wayland: ydotool only;
/// - other Wayland: wtype, else ydotool;
/// - unknown: ydotool, else xdotool, else wtype.
pub open spec fn best_tool(
    server: DisplayServer,
    gnome_wayland: bool,
    tools: Seq<TextInjectionTool>,
) -> Result<TextInjectionTool, ToolSelectionError> {
    match server {
        DisplayServer::X11 => if tools.contains(TextInjectionTool::Xdotool) {
            Ok(TextInjectionTool::Xdotool)
        } else if tools.contains(TextInjectionTool::Ydotool) {
            Ok(TextInjectionTool::Ydotool)
        } else {
            Err(ToolSelectionError::X11ToolMissing)
        },
        DisplayServer::Wayland => if gnome_wayland {
            if tools.contains(TextInjectionTool::Ydotool) {
                Ok(TextInjectionTool::Ydotool)
            } else {
                Err(ToolSelectionError::GnomeWaylandToolMissing)
            }
        } else if tools.contains(TextInjectionTool::Wtype) {
            Ok(TextInjectionTool::Wtype)
        } else if tools.contains(TextInjectionTool::Ydotool) {
            Ok(TextInjectionTool::Ydotool)
        } else {
            Err(ToolSelectionError::WaylandToolMissing)
        },
        DisplayServer::Unknown => if tools.contains(TextInjectionTool::Ydotool) {
            Ok(TextInjectionTool::Ydotool)
        } else if tools.contains(TextInjectionTool::Xdotool) {
            Ok(TextInjectionTool::Xdotool)
        } else if tools.contains(TextInjectionTool::Wtype) {
            Ok(TextInjectionTool::Wtype)
        } else {
            Err(ToolSelectionError::NoToolFound)
        },
    }
}

fn has_tool(tools: &[TextInjectionTool], t: TextInjectionTool) -> (r: bool)
    ensures
        r == tools@.contains(t),
{
    let mut k: usize = 0;
    while k < tools.len()
        invariant
            k <= tools@.len(),
            forall|j: int| 0 <= j < k ==> tools@[j] != t,
        decreases tools@.len() - k,
    {
        if tools[k] == t {
            assert(tools@[k as int] == t);
            return true;
        }
        k = k + 1;
    }
    false
}

/// Selects the best text injection tool for the detected environment among
/// the available ones.
pub fn select_best_tool(server_info: &DisplayServerInfo, available_tools: &[TextInjectionTool]) -> (r:
    Result<TextInjectionTool, ToolSelectionError>)
    ensures
        r == best_tool(server_info.server_type, server_info.is_gnome_wayland, available_tools@),
{
    let has_x = has_tool(available_tools, TextInjectionTool::Xdotool);
    let has_w = has_tool(available_tools, TextInjectionTool::Wtype);
    let has_y = has_tool(available_tools, TextInjectionTool::Ydotool);
    match server_info.server_type {
        DisplayServer::X11 => {
            if has_x {
                Ok(TextInjectionTool::Xdotool)
            } else if has_y {
                Ok(TextInjectionTool::Ydotool)
            } else {
                Err(ToolSelectionError::X11ToolMissing)
            }
        },
        DisplayServer::Wayland => {
            if server_info.is_gnome_wayland {
                if has_y {
                    Ok(TextInjectionTool::Ydotool)
                } else {
                    Err(ToolSelectionError::GnomeWaylandToolMissing)
                }
            } else if has_w {
                Ok(TextInjectionTool::Wtype)
            } else if has_y {
                Ok(TextInjectionTool::Ydotool)
            } else {
                Err(ToolSelectionError::WaylandToolMissing)
            }
        },
        DisplayServer::Unknown => {
            if has_y {
                Ok(TextInjectionTool::Ydotool)
            } else if has_x {
                Ok(TextInjectionTool::Xdotool)
            } else if has_w {
                Ok(TextInjectionTool::Wtype)
            } else {
                Err(ToolSelectionError::NoToolFound)
            }
        },
    }
}

/// The session variables that error messages report.
#[derive(Debug, Clone)]
pub struct SessionVars {
    /// `DISPLAY`
    pub display: Option<String>,
    /// `WAYLAND_DISPLAY`
    pub wayland_display: Option<String>,
    /// `XDG_SESSION_TYPE`
    pub session_type: Option<String>,
    /// `XDG_CURRENT_DESKTOP`
    pub current_desktop: Option<String>,
}

/// The value, or `default` when it is missing.
pub open spec fn or_text(o: Option<String>, default: Seq<char>) -> Seq<char> {
    match o {
        Some(s) => s@,
        None => default,
    }
}

/// The message explaining why no tool could be selected, with installation
/// instructions and the detected environment.
pub open spec fn selection_error_text(
    err: ToolSelectionError,
    desktop: Option<String>,
    vars: SessionVars,
) -> Seq<char> {
    match err {
        ToolSelectionError::X11ToolMissing => "Error: Text injection tool not found for X11\n\nRequired tool: xdotool\nInstall command:\n  Ubuntu/Debian: sudo apt install xdotool\n  Fedora:        sudo dnf install xdotool\n  Arch:          sudo pacman -S xdotool\n\nAlternative: Install ydotool (universal tool)\n  Ubuntu/Debian: sudo apt install ydotool\n  Fedora:        sudo dnf install ydotool\n  Arch:          sudo pacman -S ydotool\n  Setup:         sudo usermod -aG input $USER\n  (Then log out and log back in)\n\nDetected environment:\n  Display Server:    X11\n  DISPLAY:           "@ + or_text(vars.display, "not set"@) + "\n  XDG_SESSION_TYPE:  "@ + or_text(vars.session_type, "not set"@) + "\n  Desktop:           "@ + or_text(desktop, "unknown"@),
        ToolSelectionError::GnomeWaylandToolMissing => "Error: GNOME Wayland requires ydotool\n\nGNOME's Wayland compositor does not support wtype.\nYou must use ydotool for text injection.\n\nInstall ydotool:\n  Ubuntu 24.04:  sudo apt install ydotool\n  Fedora 40/41:  sudo dnf install ydotool\n  Debian 12:     sudo apt install ydotool\n  Arch:          sudo pacman -S ydotool\n\nGrant permissions (REQUIRED):\n  sudo usermod -aG input $USER\n\nThen log out and log back in.\n\nDetected environment:\n  Display Server:        Wayland\n  Desktop:               "@ + or_text(desktop, "GNOME"@) + "\n  WAYLAND_DISPLAY:       "@ + or_text(vars.wayland_display, "not set"@) + "\n  XDG_SESSION_TYPE:      "@ + or_text(vars.session_type, "not set"@) + "\n  XDG_CURRENT_DESKTOP:   "@ + or_text(vars.current_desktop, "not set"@) + "\n\nWhy? GNOME's Mutter compositor lacks the virtual-keyboard protocol\nthat wtype requires. ydotool uses kernel uinput instead."@,
        ToolSelectionError::WaylandToolMissing => "Error: Wayland text injection tool not found\n\nRecommended tool: wtype (fast)\n  Ubuntu/Debian: sudo apt install wtype\n  Fedora:        sudo dnf install wtype\n  Arch:          sudo pacman -S wtype\n\nAlternative: ydotool (universal, works everywhere)\n  Ubuntu/Debian: sudo apt install ydotool\n  Fedora:        sudo dnf install ydotool\n  Arch:          sudo pacman -S ydotool\n  Setup:         sudo usermod -aG input $USER\n  (Then log out and log back in)\n\nDetected environment:\n  Display Server:        Wayland\n  Desktop:               "@ + or_text(desktop, "unknown"@) + "\n  WAYLAND_DISPLAY:       "@ + or_text(vars.wayland_display, "not set"@) + "\n  XDG_SESSION_TYPE:      "@ + or_text(vars.session_type, "not set"@),
        ToolSelectionError::NoToolFound => "Error: Could not detect display server and no text injection tools found\n\nPlease install one of the following:\n\nUniversal option (works everywhere):\n  ydotool:\n    Ubuntu/Debian: sudo apt install ydotool\n    Fedora:        sudo dnf install ydotool\n    Arch:          sudo pacman -S ydotool\n    Setup:         sudo usermod -aG input $USER\n\nFor X11:\n  xdotool:\n    Ubuntu/Debian: sudo apt install xdotool\n    Fedora:        sudo dnf install xdotool\n    Arch:          sudo pacman -S xdotool\n\nFor Wayland:\n  wtype:\n    Ubuntu/Debian: sudo apt install wtype\n    Fedora:        sudo dnf install wtype\n    Arch:          sudo pacman -S wtype\n\nDetected environment:\n  DISPLAY:              "@ + or_text(vars.display, "not set"@) + "\n  WAYLAND_DISPLAY:      "@ + or_text(vars.wayland_display, "not set"@) + "\n  XDG_SESSION_TYPE:     "@ + or_text(vars.session_type, "not set"@) + "\n  XDG_CURRENT_DESKTOP:  "@ + or_text(vars.current_desktop, "not set"@),
    }
}

fn push_text(out: &mut Vec<char>, s: &str)
    ensures
        final(out)@ == old(out)@ + s@,
{
    let c = text::chars_of(s);
    text::extend_chars(out, c.as_slice());
}

fn push_or(out: &mut Vec<char>, value: &Option<String>, default: &str)
    ensures
        final(out)@ == old(out)@ + or_text(*value, default@),
{
    match value {
        Some(v) => push_text(out, v.as_str()),
        None => push_text(out, default),
    }
}

/// Words the failure to select a tool, given the detected session and its
/// environment variables.
pub fn selection_error_message(
    err: ToolSelectionError,
    info: &DisplayServerInfo,
    vars: &SessionVars,
) -> (r: String)
    ensures
        r@ == selection_error_text(err, info.desktop_environment, *vars),
{
    match err {
        ToolSelectionError::X11ToolMissing => {
            let mut out: Vec<char> = Vec::new();
            push_text(&mut out, "Error: Text injection tool not found for X11\n\nRequired tool: xdotool\nInstall command:\n  Ubuntu/Debian: sudo apt install xdotool\n  Fedora:        sudo dnf install xdotool\n  Arch:          sudo pacman -S xdotool\n\nAlternative: Install ydotool (universal tool)\n  Ubuntu/Debian: sudo apt install ydotool\n  Fedora:        sudo dnf install ydotool\n  Arch:          sudo pacman -S ydotool\n  Setup:         sudo usermod -aG input $USER\n  (Then log out and log back in)\n\nDetected environment:\n  Display Server:    X11\n  DISPLAY:           ");
            push_or(&mut out, &vars.display, "not set");
            push_text(&mut out, "\n  XDG_SESSION_TYPE:  ");
            push_or(&mut out, &vars.session_type, "not set");
            push_text(&mut out, "\n  Desktop:           ");
            push_or(&mut out, &info.desktop_environment, "unknown");
            assert(out@ =~= selection_error_text(err, info.desktop_environment, *vars));
            text::string_of(out.as_slice())
        },
        ToolSelectionError::GnomeWaylandToolMissing => {
            let mut out: Vec<char> = Vec::new();
            push_text(&mut out, "Error: GNOME Wayland requires ydotool\n\nGNOME's Wayland compositor does not support wtype.\nYou must use ydotool for text injection.\n\nInstall ydotool:\n  Ubuntu 24.04:  sudo apt install ydotool\n  Fedora 40/41:  sudo dnf install ydotool\n  Debian 12:     sudo apt install ydotool\n  Arch:          sudo pacman -S ydotool\n\nGrant permissions (REQUIRED):\n  sudo usermod -aG input $USER\n\nThen log out and log back in.\n\nDetected environment:\n  Display Server:        Wayland\n  Desktop:               ");
            push_or(&mut out, &info.desktop_environment, "GNOME");
            push_text(&mut out, "\n  WAYLAND_DISPLAY:       ");
            push_or(&mut out, &vars.wayland_display, "not set");
            push_text(&mut out, "\n  XDG_SESSION_TYPE:      ");
            push_or(&mut out, &vars.session_type, "not set");
            push_text(&mut out, "\n  XDG_CURRENT_DESKTOP:   ");
            push_or(&mut out, &vars.current_desktop, "not set");
            push_text(&mut out, "\n\nWhy? GNOME's Mutter compositor lacks the virtual-keyboard protocol\nthat wtype requires. ydotool uses kernel uinput instead.");
            assert(out@ =~= selection_error_text(err, info.desktop_environment, *vars));
            text::string_of(out.as_slice())
        },
        ToolSelectionError::WaylandToolMissing => {
            let mut out: Vec<char> = Vec::new();
            push_text(&mut out, "Error: Wayland text injection tool not found\n\nRecommended tool: wtype (fast)\n  Ubuntu/Debian: sudo apt install wtype\n  Fedora:        sudo dnf install wtype\n  Arch:          sudo pacman -S wtype\n\nAlternative: ydotool (universal, works everywhere)\n  Ubuntu/Debian: sudo apt install ydotool\n  Fedora:        sudo dnf install ydotool\n  Arch:          sudo pacman -S ydotool\n  Setup:         sudo usermod -aG input $USER\n  (Then log out and log back in)\n\nDetected environment:\n  Display Server:        Wayland\n  Desktop:               ");
            push_or(&mut out, &info.desktop_environment, "unknown");
            push_text(&mut out, "\n  WAYLAND_DISPLAY:       ");
            push_or(&mut out, &vars.wayland_display, "not set");
            push_text(&mut out, "\n  XDG_SESSION_TYPE:      ");
            push_or(&mut out, &vars.session_type, "not set");
            assert(out@ =~= selection_error_text(err, info.desktop_environment, *vars));
            text::string_of(out.as_slice())
        },
        ToolSelectionError::NoToolFound => {
            let mut out: Vec<char> = Vec::new();
            push_text(&mut out, "Error: Could not detect display server and no text injection tools found\n\nPlease install one of the following:\n\nUniversal option (works everywhere):\n  ydotool:\n    Ubuntu/Debian: sudo apt install ydotool\n    Fedora:        sudo dnf install ydotool\n    Arch:          sudo pacman -S ydotool\n    Setup:         sudo usermod -aG input $USER\n\nFor X11:\n  xdotool:\n    Ubuntu/Debian: sudo apt install xdotool\n    Fedora:        sudo dnf install xdotool\n    Arch:          sudo pacman -S xdotool\n\nFor Wayland:\n  wtype:\n    Ubuntu/Debian: sudo apt install wtype\n    Fedora:        sudo dnf install wtype\n    Arch:          sudo pacman -S wtype\n\nDetected environment:\n  DISPLAY:              ");
            push_or(&mut out, &vars.display, "not set");
            push_text(&mut out, "\n  WAYLAND_DISPLAY:      ");
            push_or(&mut out, &vars.wayland_display, "not set");
            push_text(&mut out, "\n  XDG_SESSION_TYPE:     ");
            push_or(&mut out, &vars.session_type, "not set");
            push_text(&mut out, "\n  XDG_CURRENT_DESKTOP:  ");
            push_or(&mut out, &vars.current_desktop, "not set");
            assert(out@ =~= selection_error_text(err, info.desktop_environment, *vars));
            text::string_of(out.as_slice())
        },
    }
}

/// A selected tool is one of the available tools, and selection fails only
/// when none of the tools that suit the environment is available.
pub proof fn lemma_selected_tool_is_available(
    server: DisplayServer,
    gnome_wayland: bool,
    tools: Seq<TextInjectionTool>,
)
    ensures
        best_tool(server, gnome_wayland, tools) matches Ok(t) ==> tools.contains(t),
        best_tool(server, gnome_wayland, tools) is Err ==> !tools.contains(
            TextInjectionTool::Ydotool,
        ),
        server == DisplayServer::Wayland && gnome_wayland ==> best_tool(
            server,
            gnome_wayland,
            tools,
        ) != Ok::<TextInjectionTool, ToolSelectionError>(TextInjectionTool::Wtype),
        server == DisplayServer::X11 ==> best_tool(server, gnome_wayland, tools)
            != Ok::<TextInjectionTool, ToolSelectionError>(TextInjectionTool::Wtype),
{
}

/// GNOME on Wayland is only ever reported for a Wayland session, and the
/// server is X11 or Wayland only when its evidence outweighs the other's.
pub proof fn lemma_detection_consistent(
    session_type: Option<Seq<char>>,
    desktop: Option<Seq<char>>,
    wayland_set: bool,
    display_set: bool,
)
    ensures
        ({
            let x = x11_score(session_type, display_set);
            let w = wayland_score(session_type, wayland_set);
            &&& gnome_wayland(detected_server(x, w), desktop) ==> detected_server(x, w)
                == DisplayServer::Wayland
            &&& session_type == Some("wayland"@) ==> detected_server(x, w)
                == DisplayServer::Wayland && detected_confidence(x, w) == ConfidenceLevel::High
            &&& session_type == Some("x11"@) && !wayland_set ==> detected_server(x, w)
                == DisplayServer::X11 && detected_confidence(x, w) == ConfidenceLevel::High
            &&& detected_server(x, w) == DisplayServer::Unknown ==> detected_confidence(x, w)
                == ConfidenceLevel::Low
        }),
{
    reveal_strlit("x11");
    reveal_strlit("wayland");
    assert("x11"@.len() != "wayland"@.len());
}

} // verus!
