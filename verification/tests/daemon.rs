use swictation::daemon::{
    is_debounced, is_missing_model_error, metrics_state, next_state, recording_started_message,
    select_stt_model, status_text, toggle_action, after_toggle, DaemonState, DaemonStatus,
    ModelSelectionError, SttModel, ToggleAction, ToggleEvent, startup, Startup,
};
use swictation::metrics;

#[test]
fn toggling_alternates_between_idle_and_recording() {
    let a = toggle_action(DaemonState::Idle, false);
    assert_eq!(a, ToggleAction::StartRecording);
    let s = next_state(DaemonState::Idle, a);
    assert_eq!(s, DaemonState::Recording);
    let b = toggle_action(s, false);
    assert_eq!(b, ToggleAction::StopRecording);
    assert_eq!(next_state(s, b), DaemonState::Idle);
    assert_eq!(toggle_action(s, true), ToggleAction::AlreadyInProgress);
    assert_eq!(next_state(s, ToggleAction::AlreadyInProgress), s);
}

#[test]
fn status_and_messages() {
    assert_eq!(status_text(DaemonState::Idle), "idle");
    assert_eq!(status_text(DaemonState::Recording), "recording");
    assert_eq!(metrics_state(DaemonState::Recording), metrics::DaemonState::Recording);
    assert_eq!(recording_started_message(42), "Recording started (Session #42)");
    assert_eq!(recording_started_message(0), "Recording started (Session #0)");
    assert_eq!(recording_started_message(-7), "Recording started (Session #-7)");
    assert_eq!(
        recording_started_message(i64::MIN),
        "Recording started (Session #-9223372036854775808)"
    );
}

#[test]
fn debounce_window() {
    assert!(is_debounced(0));
    assert!(is_debounced(499));
    assert!(!is_debounced(500));
}

#[test]
fn missing_model_errors_are_recognised() {
    assert!(is_missing_model_error("open: No such file or directory (os error 2)"));
    assert!(is_missing_model_error("model file not found"));
    assert!(is_missing_model_error("Failed to load 1.1B INT8 model"));
    assert!(!is_missing_model_error("audio device busy"));
    assert!(!is_missing_model_error("config not found"));
}

#[test]
fn model_selection() {
    assert_eq!(select_stt_model("auto", Some(8192), false), Ok(SttModel::Parakeet1_1bGpu));
    assert_eq!(select_stt_model("auto", Some(4096), false), Ok(SttModel::Parakeet1_1bGpu));
    assert_eq!(select_stt_model("auto", Some(4095), false), Ok(SttModel::Parakeet0_6bGpu));
    assert_eq!(select_stt_model("auto", Some(1536), false), Ok(SttModel::Parakeet0_6bGpu));
    assert_eq!(select_stt_model("auto", Some(1535), false), Ok(SttModel::Parakeet0_6bCpu));
    assert_eq!(select_stt_model("auto", None, false), Ok(SttModel::Parakeet0_6bCpu));
    assert_eq!(select_stt_model("0.6b-cpu", Some(80000), false), Ok(SttModel::Parakeet0_6bCpu));
    assert_eq!(select_stt_model("1.1b-gpu", None, false), Ok(SttModel::Parakeet1_1bGpu));
    assert_eq!(select_stt_model("coreml-native", None, true), Ok(SttModel::Parakeet1_1bCoreml));
    assert_eq!(
        select_stt_model("1.1b-coreml", None, false),
        Err(ModelSelectionError::InvalidOverride("1.1b-coreml".to_string()))
    );
    assert_eq!(
        select_stt_model("huge", None, true),
        Err(ModelSelectionError::InvalidOverride("huge".to_string()))
    );
}

#[test]
fn failed_toggles_keep_the_state() {
    let idle = DaemonStatus { state: DaemonState::Idle, session_id: None };
    assert_eq!(after_toggle(idle, ToggleEvent::SessionStartFailed), (idle, false));
    assert_eq!(
        after_toggle(idle, ToggleEvent::RecordingStartFailed(7)),
        (DaemonStatus { state: DaemonState::Idle, session_id: Some(7) }, false)
    );
    assert_eq!(
        after_toggle(idle, ToggleEvent::RecordingStarted(7)),
        (DaemonStatus { state: DaemonState::Recording, session_id: Some(7) }, true)
    );
    let rec = DaemonStatus { state: DaemonState::Recording, session_id: Some(7) };
    assert_eq!(after_toggle(rec, ToggleEvent::StopFailed), (rec, false));
    assert_eq!(
        after_toggle(rec, ToggleEvent::SessionEndFailed),
        (DaemonStatus { state: DaemonState::Idle, session_id: Some(7) }, false)
    );
    assert_eq!(after_toggle(rec, ToggleEvent::RecordingStopped), (idle, true));
}

#[test]
fn hotkey_toggles_are_spaced_by_the_debounce_window() {
    // (handled at, completed at) for each press; a press runs when at least
    // 500 ms passed since the last toggle that ran completed.
    let presses = [(10_000u64, 10_200u64), (10_400, 10_400), (10_700, 11_000), (11_499, 11_499), (11_500, 11_600)];
    let mut last_end = 0u64;
    let mut ran = Vec::new();
    for (arrived, completed) in presses {
        if !is_debounced(arrived - last_end) {
            ran.push(arrived);
            last_end = completed;
        }
    }
    assert_eq!(ran, vec![10_000, 10_700, 11_500]);
}

#[test]
fn dry_run_only_reports_the_model() {
    assert_eq!(startup(true, "auto", Some(8192)), Startup::DryRun(Some(SttModel::Parakeet1_1bGpu)));
    assert_eq!(startup(true, "auto", None), Startup::DryRun(Some(SttModel::Parakeet0_6bCpu)));
    assert_eq!(startup(true, "huge", None), Startup::DryRun(None));
    assert_eq!(startup(false, "auto", Some(8192)), Startup::Run);
}
