use swictation::ipc::{
    error_response, has_request, quit_response, status_response, toggle_response, CommandType,
    IpcCommand, IpcError, IpcResponse, dispatch, IpcDispatch,
};

fn command(action: &str) -> IpcCommand {
    IpcCommand { action: action.to_string() }
}

#[test]
fn actions_map_to_commands() {
    assert_eq!(command("toggle").to_command_type(), Ok(CommandType::Toggle));
    assert_eq!(command("TOGGLE").to_command_type(), Ok(CommandType::Toggle));
    assert_eq!(command("Status").to_command_type(), Ok(CommandType::Status));
    for quit in ["quit", "exit", "shutdown", "Shutdown"] {
        assert_eq!(command(quit).to_command_type(), Ok(CommandType::Quit));
    }
}

#[test]
fn unknown_actions_are_rejected_by_name() {
    let err = command("Dance").to_command_type().unwrap_err();
    assert_eq!(err, IpcError::UnknownAction("Dance".to_string()));
    assert_eq!(err.message(), "Unknown action: Dance");
}

#[test]
fn replies() {
    assert_eq!(
        toggle_response(Ok("Recording started".to_string())),
        IpcResponse::Success { message: "Recording started".to_string() }
    );
    assert_eq!(
        toggle_response(Err("boom".to_string())),
        IpcResponse::Error { error: "boom".to_string() }
    );
    assert_eq!(
        status_response("idle".to_string()),
        IpcResponse::State { state: "idle".to_string() }
    );
    assert_eq!(
        quit_response(),
        IpcResponse::Success { message: "Shutting down".to_string() }
    );
    assert_eq!(error_response("x".to_string()), IpcResponse::Error { error: "x".to_string() });
    assert!(!has_request(0));
    assert!(has_request(5));
}

#[test]
fn requests_are_dispatched() {
    assert_eq!(dispatch(Ok(command("Toggle"))), IpcDispatch::Toggle);
    assert_eq!(dispatch(Ok(command("status"))), IpcDispatch::Status);
    assert_eq!(
        dispatch(Ok(command("EXIT"))),
        IpcDispatch::Shutdown(IpcResponse::Success { message: "Shutting down".to_string() })
    );
    assert_eq!(
        dispatch(Ok(command("dance"))),
        IpcDispatch::Reply(IpcResponse::Error { error: "Unknown action: dance".to_string() })
    );
    assert_eq!(
        dispatch(Err("expected value".to_string())),
        IpcDispatch::Reply(IpcResponse::Error { error: "expected value".to_string() })
    );
}
