//! Decisions of the daemon's main loop: toggling recording, reporting the
//! state, debouncing hotkey presses, and choosing the speech model.
//!
//! The loop itself (hotkeys, IPC, the audio pipeline, model loading) runs
//! in the binary; it asks this module what to do.
use vstd::prelude::*;

use crate::metrics;
use crate::text;

verus! {

/// Whether the daemon is recording.
#[derive(Debug, Clone, Copy, PartialEq, Eq, Structural)]
pub enum DaemonState {
    Idle,
    Recording,
}

/// What a toggle request does.
#[derive(Debug, Clone, Copy, PartialEq, Eq, Structural)]
pub enum ToggleAction {
    /// Another toggle is still running; this one is skipped.
    AlreadyInProgress,
    /// Start a session and begin recording.
    StartRecording,
    /// Stop recording and end the session.
    StopRecording,
}

/// The action a toggle takes in `state`.
pub open spec fn toggle_action_spec(state: DaemonState, toggling: bool) -> ToggleAction {
    if toggling {
        ToggleAction::AlreadyInProgress
    } else {
        match state {
            DaemonState::Idle => ToggleAction::StartRecording,
            DaemonState::Recording => ToggleAction::StopRecording,
        }
    }
}

/// The state after a toggle's action completed.
pub open spec fn state_after(state: DaemonState, action: ToggleAction) -> DaemonState {
    match action {
        ToggleAction::AlreadyInProgress => state,
        ToggleAction::StartRecording => DaemonState::Recording,
        ToggleAction::StopRecording => DaemonState::Idle,
    }
}

/// Decides what a toggle request does: nothing while another toggle runs,
/// otherwise start when idle and stop when recording.
pub fn toggle_action(state: DaemonState, toggling: bool) -> (r: ToggleAction)
    ensures
        r == toggle_action_spec(state, toggling),
{
    if toggling {
        ToggleAction::AlreadyInProgress
    } else {
        match state {
            DaemonState::Idle => ToggleAction::StartRecording,
            DaemonState::Recording => ToggleAction::StopRecording,
        }
    }
}

/// The state once `action` completed.
pub fn next_state(state: DaemonState, action: ToggleAction) -> (r: DaemonState)
    ensures
        r == state_after(state, action),
{
    match action {
        ToggleAction::AlreadyInProgress => state,
        ToggleAction::StartRecording => DaemonState::Recording,
        ToggleAction::StopRecording => DaemonState::Idle,
    }
}

/// Two completed toggles return the daemon to the state it was in, and
/// each one changes it.
pub proof fn lemma_toggle_twice_restores(state: DaemonState)
    ensures
        ({
            let once = state_after(state, toggle_action_spec(state, false));
            &&& once != state
            &&& state_after(once, toggle_action_spec(once, false)) == state
        }),
{
}

/// A skipped toggle changes nothing.
pub proof fn lemma_skipped_toggle_keeps_state(state: DaemonState)
    ensures
        state_after(state, toggle_action_spec(state, true)) == state,
{
}

/// The daemon's recording state and the metrics session it records into.
#[derive(Debug, Clone, Copy, PartialEq, Eq, Structural)]
pub struct DaemonStatus {
    pub state: DaemonState,
    pub session_id: Option<i64>,
}

/// How the outside work of a toggle went.
#[derive(Debug, Clone, Copy, PartialEq, Eq, Structural)]
pub enum ToggleEvent {
    /// Starting: the metrics session could not be started.
    SessionStartFailed,
    /// Starting: session `sid` started, but recording could not start.
    RecordingStartFailed(i64),
    /// Starting: session `sid` started and recording runs.
    RecordingStarted(i64),
    /// Stopping: the pipeline could not stop recording.
    StopFailed,
    /// Stopping: recording stopped, but the session could not be ended.
    SessionEndFailed,
    /// Stopping: recording stopped and the session ended.
    RecordingStopped,
}

/// The status after a toggle whose outside work went as `event` says. The
/// session identifier is stored before recording starts and cleared only
/// once the session ended; the state changes only when recording started,
/// and becomes idle once recording stopped.
pub open spec fn status_after(s: DaemonStatus, event: ToggleEvent) -> DaemonStatus {
    match event {
        ToggleEvent::SessionStartFailed => s,
        ToggleEvent::RecordingStartFailed(sid) => DaemonStatus { session_id: Some(sid), ..s },
        ToggleEvent::RecordingStarted(sid) => DaemonStatus {
            state: DaemonState::Recording,
            session_id: Some(sid),
        },
        ToggleEvent::StopFailed => s,
        ToggleEvent::SessionEndFailed => DaemonStatus { state: DaemonState::Idle, ..s },
        ToggleEvent::RecordingStopped => DaemonStatus {
            state: DaemonState::Idle,
            session_id: None,
        },
    }
}

/// Whether the toggle succeeded (its reply is `Ok`).
pub open spec fn toggle_succeeded(event: ToggleEvent) -> bool {
    event is RecordingStarted || event is RecordingStopped
}

/// The status once a toggle's outside work ended as `event`, and whether
/// the toggle succeeded.
pub fn after_toggle(s: DaemonStatus, event: ToggleEvent) -> (r: (DaemonStatus, bool))
    ensures
        r.0 == status_after(s, event),
        r.1 == toggle_succeeded(event),
{
    match event {
        ToggleEvent::SessionStartFailed => (s, false),
        ToggleEvent::RecordingStartFailed(sid) => (DaemonStatus { session_id: Some(sid), ..s }, false),
        ToggleEvent::RecordingStarted(sid) => (
            DaemonStatus { state: DaemonState::Recording, session_id: Some(sid) },
            true,
        ),
        ToggleEvent::StopFailed => (s, false),
        ToggleEvent::SessionEndFailed => (DaemonStatus { state: DaemonState::Idle, ..s }, false),
        ToggleEvent::RecordingStopped => (
            DaemonStatus { state: DaemonState::Idle, session_id: None },
            true,
        ),
    }
}

/// A start that fails leaves the daemon in the state it was in; a stop that
/// fails before recording stopped does too.
pub proof fn lemma_failed_start_keeps_state(s: DaemonStatus, sid: i64)
    ensures
        status_after(s, ToggleEvent::SessionStartFailed) == s,
        status_after(s, ToggleEvent::RecordingStartFailed(sid)).state == s.state,
        status_after(s, ToggleEvent::StopFailed) == s,
{
}

/// A successful toggle moves the state as `toggle_action` and `next_state`
/// decide: a start records into the new session, a stop leaves the daemon
/// idle with no session.
pub proof fn lemma_successful_toggle_follows_action(s: DaemonStatus, sid: i64)
    ensures
        s.state == DaemonState::Idle ==> status_after(s, ToggleEvent::RecordingStarted(sid))
            == (DaemonStatus {
            state: state_after(s.state, toggle_action_spec(s.state, false)),
            session_id: Some(sid),
        }),
        s.state == DaemonState::Recording ==> status_after(s, ToggleEvent::RecordingStopped)
            == (DaemonStatus {
            state: state_after(s.state, toggle_action_spec(s.state, false)),
            session_id: None,
        }),
{
}

/// The reply to a toggle skipped because another one runs.
pub const TOGGLE_IN_PROGRESS: &'static str = "Toggle already in progress";

/// The status reported over IPC.
pub fn status_text(state: DaemonState) -> (r: &'static str)
    ensures
        state == DaemonState::Idle ==> r@ == "idle"@,
        state == DaemonState::Recording ==> r@ == "recording"@,
{
    match state {
        DaemonState::Idle => "idle",
        DaemonState::Recording => "recording",
    }
}

/// The state as reported to metrics clients.
pub fn metrics_state(state: DaemonState) -> (r: metrics::DaemonState)
    ensures
        state == DaemonState::Idle ==> r == metrics::DaemonState::Idle,
        state == DaemonState::Recording ==> r == metrics::DaemonState::Recording,
{
    match state {
        DaemonState::Idle => metrics::DaemonState::Idle,
        DaemonState::Recording => metrics::DaemonState::Recording,
    }
}

/// The reply to a toggle that started session `session_id`.
pub fn recording_started_message(session_id: i64) -> (r: String)
    ensures
        r@ == "Recording started (Session #"@ + text::signed_decimal(session_id as int) + ")"@,
{
    let mut v = text::chars_of("Recording started (Session #");
    let d = text::decimal_i64(session_id);
    text::extend_chars(&mut v, d.as_slice());
    let close = text::chars_of(")");
    text::extend_chars(&mut v, close.as_slice());
    text::string_of(v.as_slice())
}

/// Hotkey toggles closer together than this are rejected.
pub const TOGGLE_DEBOUNCE_MS: u64 = 500;

/// Whether a hotkey toggle `elapsed_ms` after the previous one is rejected.
pub fn is_debounced(elapsed_ms: u64) -> (r: bool)
    ensures
        r == (elapsed_ms < TOGGLE_DEBOUNCE_MS),
{
    elapsed_ms < TOGGLE_DEBOUNCE_MS
}

/// A hotkey toggle handled by the daemon's loop: handled at `arrived`; if
/// it ran a toggle, the toggle completed at `completed`.
#[derive(Debug, Clone, Copy, PartialEq, Eq, Structural)]
pub struct HotkeyPress {
    pub arrived: u64,
    pub completed: u64,
}

/// When the last toggle that ran before press `n` completed, starting from
/// `start` (the loop starts with a time well in the past).
pub open spec fn last_toggle_end(start: int, presses: Seq<HotkeyPress>, n: int) -> int
    decreases n, 1int,
{
    if n <= 0 {
        start
    } else if press_runs(start, presses, n - 1) {
        presses[n - 1].completed as int
    } else {
        last_toggle_end(start, presses, n - 1)
    }
}

/// Press `k` runs a toggle: it is not debounced against the completion of
/// the last toggle that ran before it.
pub open spec fn press_runs(start: int, presses: Seq<HotkeyPress>, k: int) -> bool
    decreases k, 2int,
{
    k >= 0 && presses[k].arrived - last_toggle_end(start, presses, k) >= TOGGLE_DEBOUNCE_MS
}

proof fn lemma_last_end_after_run(start: int, presses: Seq<HotkeyPress>, j: int, n: int)
    requires
        0 <= j < n <= presses.len(),
        press_runs(start, presses, j),
        forall|m: int| 0 <= m < presses.len() ==> #[trigger] presses[m].arrived <= presses[m].completed,
        forall|a: int, b: int|
            0 <= a < b < presses.len() ==> #[trigger] presses[a].completed <= #[trigger] presses[b].arrived,
    ensures
        last_toggle_end(start, presses, n) >= presses[j].completed,
    decreases n,
{
    if n - 1 > j {
        lemma_last_end_after_run(start, presses, j, n - 1);
        if press_runs(start, presses, n - 1) {
            assert(presses[j].completed <= presses[n - 1].arrived);
        }
    }
}

/// Hotkey toggles that run are debounced against each other: when presses
/// are handled one after another (each handled after the previous one
/// completed), a press that runs a toggle arrives at least 500 ms after
/// every earlier toggle completed.
pub proof fn lemma_toggles_are_spaced(start: int, presses: Seq<HotkeyPress>, j: int, k: int)
    requires
        0 <= j < k < presses.len(),
        press_runs(start, presses, j),
        press_runs(start, presses, k),
        forall|m: int| 0 <= m < presses.len() ==> #[trigger] presses[m].arrived <= presses[m].completed,
        forall|a: int, b: int|
            0 <= a < b < presses.len() ==> #[trigger] presses[a].completed <= #[trigger] presses[b].arrived,
    ensures
        presses[k].arrived >= presses[j].completed + TOGGLE_DEBOUNCE_MS,
{
    lemma_last_end_after_run(start, presses, j, k);
}

/// Whether a startup error is about missing model files.
pub open spec fn missing_model_error(msg: Seq<char>) -> bool {
    text::contains_seq(msg, "No such file or directory"@) || (text::contains_seq(msg, "model"@)
        && text::contains_seq(msg, "not found"@)) || text::contains_seq(msg, "Failed to load"@)
}

fn has(msg: &[char], p: &str) -> (r: bool)
    ensures
        r == text::contains_seq(msg@, p@),
{
    let pc = text::chars_of(p);
    text::contains(msg, pc.as_slice())
}

/// Whether a startup error is about missing model files, in which case the
/// user is told how to download them.
pub fn is_missing_model_error(msg: &str) -> (r: bool)
    ensures
        r == missing_model_error(msg@),
{
    let m = text::chars_of(msg);
    has(m.as_slice(), "No such file or directory") || (has(m.as_slice(), "model") && has(
        m.as_slice(),
        "not found",
    )) || has(m.as_slice(), "Failed to load")
}

/// The speech-to-text models.
#[derive(Debug, Clone, Copy, PartialEq, Eq, Structural)]
pub enum SttModel {
    /// Parakeet-TDT-1.1B INT8 on the GPU
    Parakeet1_1bGpu,
    /// Parakeet-TDT-0.6B on the GPU
    Parakeet0_6bGpu,
    /// Parakeet-TDT-0.6B on the CPU
    Parakeet0_6bCpu,
    /// Parakeet-TDT-1.1B through native CoreML (macOS)
    Parakeet1_1bCoreml,
}

/// Video memory needed for the 1.1B model.
pub const VRAM_1_1B_MB: u64 = 4096;

/// Video memory needed for the 0.6B model on the GPU.
pub const VRAM_0_6B_GPU_MB: u64 = 1536;

/// The model automatic selection picks for the available video memory:
/// at least 4096 MB runs the 1.1B model, at least 1536 MB the 0.6B model on
/// the GPU, anything less or no GPU the 0.6B model on the CPU.
pub open spec fn auto_model(vram_mb: Option<u64>) -> SttModel {
    match vram_mb {
        Some(v) => if v >= 4096 {
            SttModel::Parakeet1_1bGpu
        } else if v >= 1536 {
            SttModel::Parakeet0_6bGpu
        } else {
            SttModel::Parakeet0_6bCpu
        },
        None => SttModel::Parakeet0_6bCpu,
    }
}

/// The model a configured override names: "1.1b-gpu", "0.6b-gpu",
/// "0.6b-cpu", and with native CoreML support "1.1b-coreml" or
/// "coreml-native".
pub open spec fn override_model(name: Seq<char>, coreml_supported: bool) -> Option<SttModel> {
    if name == "1.1b-gpu"@ {
        Some(SttModel::Parakeet1_1bGpu)
    } else if name == "0.6b-gpu"@ {
        Some(SttModel::Parakeet0_6bGpu)
    } else if name == "0.6b-cpu"@ {
        Some(SttModel::Parakeet0_6bCpu)
    } else if coreml_supported && (name == "1.1b-coreml"@ || name == "coreml-native"@) {
        Some(SttModel::Parakeet1_1bCoreml)
    } else {
        None
    }
}

/// Each forced override names its own model: "0.6b-gpu" and only it forces
/// the 0.6B model on the GPU, "0.6b-cpu" and only it the 0.6B model on the
/// CPU, "1.1b-gpu" and only it the 1.1B model on the GPU, and only
/// "1.1b-coreml" or "coreml-native", with CoreML support, the CoreML model.
pub proof fn lemma_override_names_its_model(name: Seq<char>, coreml_supported: bool)
    ensures
        (override_model(name, coreml_supported) == Some(SttModel::Parakeet0_6bGpu)) <==> name
            == "0.6b-gpu"@,
        (override_model(name, coreml_supported) == Some(SttModel::Parakeet0_6bCpu)) <==> name
            == "0.6b-cpu"@,
        (override_model(name, coreml_supported) == Some(SttModel::Parakeet1_1bGpu)) <==> name
            == "1.1b-gpu"@,
        (override_model(name, coreml_supported) == Some(SttModel::Parakeet1_1bCoreml)) <==> (
        coreml_supported && (name == "1.1b-coreml"@ || name == "coreml-native"@)),
{
    reveal_strlit("1.1b-gpu");
    reveal_strlit("0.6b-gpu");
    reveal_strlit("0.6b-cpu");
    reveal_strlit("1.1b-coreml");
    reveal_strlit("coreml-native");
    assert("1.1b-gpu"@ != "0.6b-gpu"@) by {
        assert("1.1b-gpu"@[0] != "0.6b-gpu"@[0]);
    }
    assert("1.1b-gpu"@ != "0.6b-cpu"@) by {
        assert("1.1b-gpu"@[0] != "0.6b-cpu"@[0]);
    }
    assert("0.6b-gpu"@ != "0.6b-cpu"@) by {
        assert("0.6b-gpu"@[5] != "0.6b-cpu"@[5]);
    }
    assert("1.1b-coreml"@.len() != "1.1b-gpu"@.len());
    assert("1.1b-coreml"@.len() != "0.6b-gpu"@.len());
    assert("coreml-native"@.len() != "0.6b-cpu"@.len());
}

/// Why no model could be chosen.
#[derive(Debug, Clone, PartialEq, Eq)]
pub enum ModelSelectionError {
    /// The configured override names no model.
    InvalidOverride(String),
}

fn override_lookup(name: &[char], coreml_supported: bool) -> (r: Option<SttModel>)
    ensures
        r == override_model(name@, coreml_supported),
{
    if text::chars_eq_str(name, "1.1b-gpu") {
        Some(SttModel::Parakeet1_1bGpu)
    } else if text::chars_eq_str(name, "0.6b-gpu") {
        Some(SttModel::Parakeet0_6bGpu)
    } else if text::chars_eq_str(name, "0.6b-cpu") {
        Some(SttModel::Parakeet0_6bCpu)
    } else if coreml_supported && (text::chars_eq_str(name, "1.1b-coreml") || text::chars_eq_str(
        name,
        "coreml-native",
    )) {
        Some(SttModel::Parakeet1_1bCoreml)
    } else {
        None
    }
}

/// Chooses the speech model: an override other than "auto" forces its
/// model (an unknown one is an error); "auto" selects by the available
/// video memory.
pub fn select_stt_model(model_override: &str, vram_mb: Option<u64>, coreml_supported: bool) -> (r:
    Result<SttModel, ModelSelectionError>)
    ensures
        model_override@ == "auto"@ ==> r == Ok::<SttModel, ModelSelectionError>(
            auto_model(vram_mb),
        ),
        model_override@ != "auto"@ ==> match override_model(model_override@, coreml_supported) {
            Some(m) => r == Ok::<SttModel, ModelSelectionError>(m),
            None => (r matches Err(ModelSelectionError::InvalidOverride(n)) && n@
                == model_override@),
        },
{
    let name = text::chars_of(model_override);
    if text::chars_eq_str(name.as_slice(), "auto") {
        let m = match vram_mb {
            Some(v) => {
                if v >= VRAM_1_1B_MB {
                    SttModel::Parakeet1_1bGpu
                } else if v >= VRAM_0_6B_GPU_MB {
                    SttModel::Parakeet0_6bGpu
                } else {
                    SttModel::Parakeet0_6bCpu
                }
            },
            None => SttModel::Parakeet0_6bCpu,
        };
        return Ok(m);
    }
    match override_lookup(name.as_slice(), coreml_supported) {
        Some(m) => Ok(m),
        None => Err(ModelSelectionError::InvalidOverride(model_override.to_owned())),
    }
}

/// The model a dry run reports: automatic selection by total video memory,
/// or the forced model of "1.1b-gpu", "0.6b-gpu", "0.6b-cpu" or
/// "1.1b-coreml"; `None` for an invalid override.
pub open spec fn dry_run_spec(name: Seq<char>, total_vram_mb: Option<u64>) -> Option<SttModel> {
    if name == "auto"@ {
        Some(auto_model(total_vram_mb))
    } else if name == "coreml-native"@ {
        None
    } else {
        override_model(name, true)
    }
}

/// The model a dry run (`--dry-run`) reports without loading anything.
pub fn dry_run_model(model_override: &str, total_vram_mb: Option<u64>) -> (r: Option<SttModel>)
    ensures
        r == dry_run_spec(model_override@, total_vram_mb),
{
    let name = text::chars_of(model_override);
    proof {
        reveal_strlit("auto");
        reveal_strlit("coreml-native");
        assert("auto"@.len() != "coreml-native"@.len());
    }
    if text::chars_eq_str(name.as_slice(), "coreml-native") {
        return None;
    }
    match select_stt_model(model_override, total_vram_mb, true) {
        Ok(m) => Some(m),
        Err(_) => None,
    }
}

/// What the daemon does when it starts.
#[derive(Debug, Clone, Copy, PartialEq, Eq, Structural)]
pub enum Startup {
    /// Report the model that would be loaded (`None`: the override is
    /// invalid) and exit without loading anything.
    DryRun(Option<SttModel>),
    /// Load the models and run.
    Run,
}

/// Decides how the daemon starts: a dry run only reports the model chosen
/// for the total video memory and never loads a model or starts the
/// daemon; otherwise it runs.
pub fn startup(dry_run: bool, model_override: &str, total_vram_mb: Option<u64>) -> (r: Startup)
    ensures
        dry_run ==> r == Startup::DryRun(dry_run_spec(model_override@, total_vram_mb)),
        !dry_run ==> r == Startup::Run,
{
    if dry_run {
        Startup::DryRun(dry_run_model(model_override, total_vram_mb))
    } else {
        Startup::Run
    }
}

/// More video memory never selects a smaller model: automatic selection is
/// monotone in the available memory.
pub proof fn lemma_auto_selection_monotone(a: u64, b: u64)
    requires
        a <= b,
    ensures
        auto_model(Some(a)) == SttModel::Parakeet1_1bGpu ==> auto_model(Some(b))
            == SttModel::Parakeet1_1bGpu,
        auto_model(Some(a)) == SttModel::Parakeet0_6bGpu ==> auto_model(Some(b))
            != SttModel::Parakeet0_6bCpu,
{
}

} // verus!
