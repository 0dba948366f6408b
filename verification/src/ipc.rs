//! Commands of the Unix-socket control interface.
//!
//! A client sends one JSON object, `{"action": "toggle|status|quit"}`.
//! Socket handling and JSON (de)serialization are the caller's part; this
//! module interprets the action and decides the reply.
use vstd::prelude::*;

use crate::text;

verus! {

/// Largest command accepted in one read.
pub const MAX_COMMAND_BYTES: usize = 1024;

/// How long a connected peer may go without sending its command.
pub const READ_TIMEOUT_MS: u64 = 2000;

/// The error for a request that is not the expected JSON object.
pub const INVALID_JSON_MESSAGE: &'static str = "Invalid JSON. Expected: {\"action\": \"toggle|status|quit\"}";

/// An IPC command.
#[derive(Debug, Clone)]
pub struct IpcCommand {
    pub action: String,
}

/// What a command asks of the daemon.
#[derive(Debug, Clone, Copy, PartialEq, Eq, Structural)]
pub enum CommandType {
    Toggle,
    Status,
    Quit,
}

/// The command an action names, compared case-insensitively.
pub open spec fn command_for(action_lower: Seq<char>) -> Option<CommandType> {
    if action_lower == "toggle"@ {
        Some(CommandType::Toggle)
    } else if action_lower == "status"@ {
        Some(CommandType::Status)
    } else if action_lower == "quit"@ || action_lower == "exit"@ || action_lower == "shutdown"@ {
        Some(CommandType::Quit)
    } else {
        None
    }
}

/// Why a command was rejected.
#[derive(Debug, Clone, PartialEq, Eq)]
pub enum IpcError {
    /// The action is none of toggle, status, quit/exit/shutdown.
    UnknownAction(String),
}

impl IpcError {
    /// The error's message.
    pub fn message(&self) -> (r: String)
        ensures
            self matches IpcError::UnknownAction(a) ==> r@ == "Unknown action: "@ + a@,
    {
        match self {
            IpcError::UnknownAction(a) => {
                let mut v = text::chars_of("Unknown action: ");
                let w = text::chars_of(a.as_str());
                text::extend_chars(&mut v, w.as_slice());
                text::string_of(v.as_slice())
            },
        }
    }
}

impl IpcCommand {
    /// The command type of the action: "toggle", "status", and "quit",
    /// "exit" or "shutdown", in any case.
    pub fn to_command_type(&self) -> (r: Result<CommandType, IpcError>)
        ensures
            match command_for(text::lower_str(self.action@)) {
                Some(c) => r == Ok::<CommandType, IpcError>(c),
                None => (r matches Err(IpcError::UnknownAction(a)) && a@ == self.action@),
            },
    {
        let lower = text::to_lowercase(self.action.as_str());
        let l = text::chars_of(lower.as_str());
        let a = l.as_slice();
        if text::chars_eq_str(a, "toggle") {
            Ok(CommandType::Toggle)
        } else if text::chars_eq_str(a, "status") {
            Ok(CommandType::Status)
        } else if text::chars_eq_str(a, "quit") || text::chars_eq_str(a, "exit")
            || text::chars_eq_str(a, "shutdown") {
            Ok(CommandType::Quit)
        } else {
            Err(IpcError::UnknownAction(self.action.clone()))
        }
    }
}

/// The reply sent back over the socket.
#[derive(Debug, Clone, PartialEq, Eq)]
pub enum IpcResponse {
    /// `{"status": "success", "message": ...}`
    Success { message: String },
    /// `{"status": "success", "state": ...}`
    State { state: String },
    /// `{"status": "error", "error": ...}`
    Error { error: String },
}

/// The reply to a toggle, from the daemon's result.
pub fn toggle_response(result: Result<String, String>) -> (r: IpcResponse)
    ensures
        result matches Ok(m) ==> r == (IpcResponse::Success { message: m }),
        result matches Err(e) ==> r == (IpcResponse::Error { error: e }),
{
    match result {
        Ok(message) => IpcResponse::Success { message },
        Err(error) => IpcResponse::Error { error },
    }
}

/// The reply to a status request.
pub fn status_response(state: String) -> (r: IpcResponse)
    ensures
        r == (IpcResponse::State { state }),
{
    IpcResponse::State { state }
}

/// The reply to a quit request, sent before shutdown is requested.
pub fn quit_response() -> (r: IpcResponse)
    ensures
        (r matches IpcResponse::Success { message } && message@ == "Shutting down"@),
{
    IpcResponse::Success { message: "Shutting down".to_owned() }
}

/// The reply to a request that could not be understood.
pub fn error_response(error: String) -> (r: IpcResponse)
    ensures
        r == (IpcResponse::Error { error }),
{
    IpcResponse::Error { error }
}

/// What the server does with a request.
#[derive(Debug, Clone, PartialEq, Eq)]
pub enum IpcDispatch {
    /// Toggle recording and reply with the toggle's outcome.
    Toggle,
    /// Reply with the daemon's state.
    Status,
    /// Send this reply, then shut the daemon down.
    Shutdown(IpcResponse),
    /// Send this reply; the daemon is not asked anything.
    Reply(IpcResponse),
}

/// What the server does with a request that parsed to `parsed` (the parse
/// error's text otherwise): toggle and status go to the daemon, a quit
/// command is acknowledged before shutting down, and an unknown action or
/// a request that did not parse is answered with an error.
pub fn dispatch(parsed: Result<IpcCommand, String>) -> (r: IpcDispatch)
    ensures
        match parsed {
            Ok(cmd) => match command_for(text::lower_str(cmd.action@)) {
                Some(CommandType::Toggle) => r == IpcDispatch::Toggle,
                Some(CommandType::Status) => r == IpcDispatch::Status,
                Some(CommandType::Quit) => (r matches IpcDispatch::Shutdown(
                    IpcResponse::Success { message },
                ) && message@ == "Shutting down"@),
                None => (r matches IpcDispatch::Reply(IpcResponse::Error { error }) && error@
                    == "Unknown action: "@ + cmd.action@),
            },
            Err(e) => r == IpcDispatch::Reply(IpcResponse::Error { error: e }),
        },
{
    match parsed {
        Ok(cmd) => match cmd.to_command_type() {
            Ok(CommandType::Toggle) => IpcDispatch::Toggle,
            Ok(CommandType::Status) => IpcDispatch::Status,
            Ok(CommandType::Quit) => IpcDispatch::Shutdown(quit_response()),
            Err(e) => IpcDispatch::Reply(error_response(e.message())),
        },
        Err(e) => IpcDispatch::Reply(error_response(e)),
    }
}

/// Whether a read of `n` bytes carries a request: an empty read means the
/// peer closed without writing.
pub fn has_request(n: usize) -> (r: bool)
    ensures
        r == (n > 0),
{
    n > 0
}

} // verus!
