//! Configuration defaults and path expansion.
//!
//! Reading and writing `config.toml` is the caller's part; this module holds
//! the hotkey configuration, the defaults the configuration falls back to,
//! and the expansion of `~` in user-supplied paths.
use vstd::prelude::*;

use crate::gpu::Platform;
use crate::paths::{self, PlatformDirs};
use crate::text;

verus! {

/// Hotkey configuration.
#[derive(Debug, Clone)]
pub struct HotkeyConfig {
    /// Toggle hotkey (default: "Ctrl+Shift+D" on macOS, "Super+Shift+D"
    /// elsewhere)
    pub toggle: String,
    /// Push-to-talk hotkey (default: "Ctrl+Space" on macOS, "Super+Space"
    /// elsewhere)
    pub push_to_talk: String,
}

impl HotkeyConfig {
    /// The default hotkeys of a platform. On macOS "Super" is the Command
    /// key, so the defaults use Ctrl there.
    pub fn default_for(platform: Platform) -> (r: Self)
        ensures
            platform == Platform::MacOs ==> r.toggle@ == "Ctrl+Shift+D"@ && r.push_to_talk@
                == "Ctrl+Space"@,
            platform != Platform::MacOs ==> r.toggle@ == "Super+Shift+D"@ && r.push_to_talk@
                == "Super+Space"@,
    {
        if platform == Platform::MacOs {
            HotkeyConfig {
                toggle: "Ctrl+Shift+D".to_owned(),
                push_to_talk: "Ctrl+Space".to_owned(),
            }
        } else {
            HotkeyConfig {
                toggle: "Super+Shift+D".to_owned(),
                push_to_talk: "Super+Space".to_owned(),
            }
        }
    }
}

/// The default STT model selection: "auto" (VRAM-based).
pub fn default_stt_model_override() -> (r: String)
    ensures
        r@ == "auto"@,
{
    "auto".to_owned()
}

/// The default number of ONNX Runtime threads.
pub fn default_num_threads() -> (r: Option<i32>)
    ensures
        r == Some(4i32),
{
    Some(4)
}

/// The default IPC socket path, in the platform's socket directory (never
/// `/tmp`). Without a socket directory the daemon cannot proceed.
pub fn default_socket_path(dirs: &PlatformDirs) -> (r: String)
    requires
        paths::socket_dir_spec(*dirs) is Some,
    ensures
        Some(r@) == paths::in_socket_dir(*dirs, "swictation.sock"@),
{
    paths::ipc_socket_path(dirs)
}

/// The model directory: `$SWICTATION_MODEL_PATH` when it is set, otherwise
/// the models directory of the data directory.
pub fn default_model_dir(model_path_env: Option<&str>, dirs: &PlatformDirs) -> (r: String)
    requires
        model_path_env is None ==> dirs.data_dir is Some,
    ensures
        model_path_env matches Some(p) ==> r@ == p@,
        model_path_env is None ==> Some(r@) == paths::in_data_dir(*dirs, "models"@),
{
    match model_path_env {
        Some(p) => p.to_owned(),
        None => paths::models_dir(dirs),
    }
}

/// The default path of the 0.6B model in `model_dir`.
pub fn get_default_0_6b_model_path(model_dir: &str) -> (r: String)
    ensures
        r@ == paths::join_path(model_dir@, "parakeet-tdt-0.6b-v3-onnx"@),
{
    paths::join(model_dir, "parakeet-tdt-0.6b-v3-onnx")
}

/// The default path of the 1.1B model in `model_dir`.
pub fn get_default_1_1b_model_path(model_dir: &str) -> (r: String)
    ensures
        r@ == paths::join_path(model_dir@, "parakeet-tdt-1.1b-onnx"@),
{
    paths::join(model_dir, "parakeet-tdt-1.1b-onnx")
}

/// The default path of the CoreML model (macOS native) in `model_dir`.
pub fn get_default_coreml_model_path(model_dir: &str) -> (r: String)
    ensures
        r@ == paths::join_path(model_dir@, "parakeet-tdt-1.1b-coreml"@),
{
    paths::join(model_dir, "parakeet-tdt-1.1b-coreml")
}

/// The default path of the VAD model in `model_dir`.
pub fn get_default_vad_model_path(model_dir: &str) -> (r: String)
    ensures
        r@ == paths::join_path(paths::join_path(model_dir@, "silero-vad"@), "silero_vad.onnx"@),
{
    let d = paths::join(model_dir, "silero-vad");
    paths::join(d.as_str(), "silero_vad.onnx")
}

/// The path of the configuration file in the configuration directory.
pub fn default_config_path(config_dir: &str) -> (r: String)
    ensures
        r@ == paths::join_path(config_dir@, "config.toml"@),
{
    paths::join(config_dir, "config.toml")
}

/// `s` with a leading `~` or `~/` expanded to the home directory, when it is
/// known. Other paths, bare `~user` forms among them, pass through.
pub open spec fn tilde_expanded(s: Seq<char>, home: Option<Seq<char>>) -> Seq<char> {
    match home {
        Some(h) => if s == "~"@ {
            h
        } else if text::starts_with(s, "~/"@) {
            paths::join_path(h, s.skip(2))
        } else {
            s
        },
        None => s,
    }
}

/// Expands a leading `~` or `~/` in `s` to `home`.
pub fn expand_tilde_str(s: &str, home: Option<&str>) -> (r: String)
    ensures
        r@ == tilde_expanded(
            s@,
            match home {
                Some(h) => Some(h@),
                None => None,
            },
        ),
{
    let c = text::chars_of(s);
    match home {
        Some(h) => {
            if text::chars_eq_str(c.as_slice(), "~") {
                return h.to_owned();
            }
            let prefix = text::chars_of("~/");
            proof {
                reveal_strlit("~/");
            }
            if text::has_prefix(c.as_slice(), prefix.as_slice()) {
                let mut rest: Vec<char> = Vec::new();
                let mut i: usize = 2;
                while i < c.len()
                    invariant
                        2 <= i <= c@.len(),
                        rest@ == c@.subrange(2, i as int),
                    decreases c@.len() - i,
                {
                    rest.push(c[i]);
                    assert(rest@ =~= c@.subrange(2, i + 1));
                    i = i + 1;
                }
                assert(rest@ =~= c@.skip(2));
                let rs = text::string_of(rest.as_slice());
                return paths::join(h, rs.as_str());
            }
            s.to_owned()
        },
        None => s.to_owned(),
    }
}

/// Paths without a leading `~` are never changed by expansion.
pub proof fn lemma_non_tilde_paths_unchanged(s: Seq<char>, home: Option<Seq<char>>)
    requires
        s.len() == 0 || s[0] != '~',
    ensures
        tilde_expanded(s, home) == s,
{
    reveal_strlit("~");
    reveal_strlit("~/");
    if s == "~"@ {
        assert(s[0] == '~');
    }
    if text::starts_with(s, "~/"@) {
        assert(s.take(2)[0] == '~');
    }
}

} // verus!
