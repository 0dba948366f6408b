//! Text injection through command-line tools on Linux.
//!
//! Injected text is always literal: every character reaching the injector
//! is typed as-is, and no escape or marker syntax is interpreted, because
//! its input is transcribed speech and the user's correction table, neither
//! of which is a trusted source of commands. Each tool receives the text as
//! a single argument after `--`, so it can never be read as an option.
//!
//! Running the tool is the caller's part; this module chooses the tool,
//! composes its command line and words the failure it reports.
use vstd::prelude::*;

use crate::display_server::{
    best_tool, select_best_tool, tool_command, DisplayServerInfo, TextInjectionTool,
    ToolSelectionError,
};
use crate::text;

verus! {

/// The arguments a tool receives to type `text`.
pub open spec fn tool_args(tool: TextInjectionTool, text: Seq<char>) -> Seq<Seq<char>> {
    match tool {
        TextInjectionTool::Xdotool => seq!["type"@, "--clearmodifiers"@, "--"@, text],
        TextInjectionTool::Wtype => seq!["--"@, text],
        TextInjectionTool::Ydotool => seq!["type"@, "--"@, text],
    }
}

pub open spec fn string_views(v: Seq<String>) -> Seq<Seq<char>> {
    v.map_values(|s: String| s@)
}

/// The program and arguments that type `text` with `tool`.
pub fn injection_command(tool: TextInjectionTool, text: &str) -> (r: (&'static str, Vec<String>))
    ensures
        r.0@ == tool_command(tool),
        string_views(r.1@) == tool_args(tool, text@),
{
    let mut args: Vec<String> = Vec::new();
    match tool {
        TextInjectionTool::Xdotool => {
            args.push("type".to_owned());
            args.push("--clearmodifiers".to_owned());
            args.push("--".to_owned());
            args.push(text.to_owned());
        },
        TextInjectionTool::Wtype => {
            args.push("--".to_owned());
            args.push(text.to_owned());
        },
        TextInjectionTool::Ydotool => {
            args.push("type".to_owned());
            args.push("--".to_owned());
            args.push(text.to_owned());
        },
    }
    assert(string_views(args@) =~= tool_args(tool, text@));
    (tool.command(), args)
}

/// The text is handed over verbatim: it is the last argument, right after
/// the `--` that ends option parsing.
pub proof fn lemma_text_is_literal_argument(tool: TextInjectionTool, text: Seq<char>)
    ensures
        tool_args(tool, text).last() == text,
        tool_args(tool, text)[tool_args(tool, text).len() - 2] == "--"@,
{
}

/// A stderr that reports missing permission to use the input device.
pub open spec fn permission_problem(stderr: Seq<char>) -> bool {
    text::contains_seq(stderr, "Permission denied"@) || text::contains_seq(stderr, "input group"@)
}

/// The error reported when `tool` exits unsuccessfully with `stderr`.
pub open spec fn failure_message(tool: TextInjectionTool, stderr: Seq<char>) -> Seq<char> {
    match tool {
        TextInjectionTool::Xdotool => "xdotool type command failed: "@ + stderr,
        TextInjectionTool::Wtype => "wtype command failed: "@ + stderr,
        TextInjectionTool::Ydotool => if permission_problem(stderr) {
            "ydotool permission denied. Add user to input group:\n  sudo usermod -aG input $USER\n  Then log out and back in.\n\nError: "@
                + stderr
        } else {
            "ydotool type command failed: "@ + stderr
        },
    }
}

fn concat(a: &str, b: &str) -> (r: String)
    ensures
        r@ == a@ + b@,
{
    let mut v = text::chars_of(a);
    let w = text::chars_of(b);
    text::extend_chars(&mut v, w.as_slice());
    text::string_of(v.as_slice())
}

/// Words the failure of `tool`, which wrote `stderr`.
pub fn injection_failure_message(tool: TextInjectionTool, stderr: &str) -> (r: String)
    ensures
        r@ == failure_message(tool, stderr@),
{
    match tool {
        TextInjectionTool::Xdotool => concat("xdotool type command failed: ", stderr),
        TextInjectionTool::Wtype => concat("wtype command failed: ", stderr),
        TextInjectionTool::Ydotool => {
            let e = text::chars_of(stderr);
            let p1 = text::chars_of("Permission denied");
            let p2 = text::chars_of("input group");
            if text::contains(e.as_slice(), p1.as_slice()) || text::contains(
                e.as_slice(),
                p2.as_slice(),
            ) {
                concat(
                    "ydotool permission denied. Add user to input group:\n  sudo usermod -aG input $USER\n  Then log out and back in.\n\nError: ",
                    stderr,
                )
            } else {
                concat("ydotool type command failed: ", stderr)
            }
        },
    }
}

/// Why no injector could be set up.
#[derive(Debug, Clone, Copy, PartialEq, Eq, Structural)]
pub enum InjectorError {
    /// None of xdotool, wtype or ydotool is installed.
    NoToolsFound,
    /// Tools are installed, but none suits the session.
    Selection(ToolSelectionError),
}

impl InjectorError {
    /// The message for a missing tool set (the selection errors are worded
    /// with the session's environment by the caller).
    pub fn no_tools_message() -> (r: &'static str)
        ensures
            r@ == "No text injection tools found. Please install xdotool, wtype, or ydotool"@,
    {
        "No text injection tools found. Please install xdotool, wtype, or ydotool"
    }
}

/// Text injector for the detected session: the display server information
/// and the tool selected for it.
pub struct TextInjector {
    display_server_info: DisplayServerInfo,
    selected_tool: TextInjectionTool,
}

impl TextInjector {
    pub closed spec fn info(&self) -> DisplayServerInfo {
        self.display_server_info
    }

    pub closed spec fn tool(&self) -> TextInjectionTool {
        self.selected_tool
    }

    /// Sets up injection for the detected session with the tools found on
    /// the system: fails when there are none, or when none suits the
    /// session.
    pub fn new(display_server_info: DisplayServerInfo, available_tools: &[TextInjectionTool]) -> (r:
        Result<Self, InjectorError>)
        ensures
            available_tools@.len() == 0 ==> r == Err::<Self, InjectorError>(
                InjectorError::NoToolsFound,
            ),
            available_tools@.len() > 0 ==> match best_tool(
                display_server_info.server_type,
                display_server_info.is_gnome_wayland,
                available_tools@,
            ) {
                Ok(t) => (r matches Ok(inj) && inj.tool() == t && inj.info()
                    == display_server_info),
                Err(e) => r == Err::<Self, InjectorError>(InjectorError::Selection(e)),
            },
    {
        if available_tools.len() == 0 {
            return Err(InjectorError::NoToolsFound);
        }
        match select_best_tool(&display_server_info, available_tools) {
            Ok(tool) => Ok(TextInjector { display_server_info, selected_tool: tool }),
            Err(e) => Err(InjectorError::Selection(e)),
        }
    }

    /// The detected display server information.
    pub fn display_server_info(&self) -> (r: &DisplayServerInfo)
        ensures
            *r == self.info(),
    {
        &self.display_server_info
    }

    /// The selected text injection tool.
    pub fn selected_tool(&self) -> (r: TextInjectionTool)
        ensures
            r == self.tool(),
    {
        self.selected_tool
    }

    /// The command that types `text` with the selected tool; empty text
    /// needs none.
    pub fn command_for(&self, text: &str) -> (r: Option<(&'static str, Vec<String>)>)
        ensures
            text@.len() == 0 ==> r is None,
            text@.len() > 0 ==> (r matches Some(c) && c.0@ == tool_command(self.tool())
                && string_views(c.1@) == tool_args(self.tool(), text@)),
    {
        if text.is_empty() {
            None
        } else {
            Some(injection_command(self.selected_tool, text))
        }
    }
}

} // verus!
