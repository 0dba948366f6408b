use swictation::config::{
    default_config_path, default_model_dir, default_num_threads, default_socket_path,
    default_stt_model_override, expand_tilde_str, get_default_0_6b_model_path,
    get_default_1_1b_model_path, get_default_coreml_model_path, get_default_vad_model_path,
    HotkeyConfig,
};
use swictation::gpu::Platform;
use swictation::paths::PlatformDirs;

fn dirs() -> PlatformDirs {
    PlatformDirs {
        platform: Platform::Linux,
        home_dir: Some("/home/user".to_string()),
        data_dir: Some("/home/user/.local/share".to_string()),
        config_dir: Some("/home/user/.config".to_string()),
        runtime_dir: Some("/run/user/1000".to_string()),
    }
}

#[test]
fn tilde_paths_expand_to_home() {
    let home = "/home/user";
    assert_eq!(expand_tilde_str("~/sock/s.sock", Some(home)), "/home/user/sock/s.sock");
    assert_eq!(expand_tilde_str("~/models/vad.onnx", Some(home)), "/home/user/models/vad.onnx");
    assert_eq!(expand_tilde_str("~", Some(home)), "/home/user");
}

#[test]
fn non_tilde_paths_pass_through_unchanged() {
    assert_eq!(
        expand_tilde_str("/run/user/1000/s.sock", Some("/home/user")),
        "/run/user/1000/s.sock"
    );
    assert_eq!(expand_tilde_str("~other/x", Some("/home/user")), "~other/x");
    assert_eq!(expand_tilde_str("~/x", None), "~/x");
}

#[test]
fn defaults() {
    assert_eq!(default_stt_model_override(), "auto");
    assert_eq!(default_num_threads(), Some(4));
    assert_eq!(default_socket_path(&dirs()), "/run/user/1000/swictation.sock");
    let linux = HotkeyConfig::default_for(Platform::Linux);
    assert_eq!(linux.toggle, "Super+Shift+D");
    assert_eq!(linux.push_to_talk, "Super+Space");
    let mac = HotkeyConfig::default_for(Platform::MacOs);
    assert_eq!(mac.toggle, "Ctrl+Shift+D");
    assert_eq!(mac.push_to_talk, "Ctrl+Space");
}

#[test]
fn model_paths() {
    let d = default_model_dir(None, &dirs());
    assert_eq!(d, "/home/user/.local/share/swictation/models");
    assert_eq!(default_model_dir(Some("/opt/m"), &dirs()), "/opt/m");
    assert_eq!(get_default_0_6b_model_path("/m"), "/m/parakeet-tdt-0.6b-v3-onnx");
    assert_eq!(get_default_1_1b_model_path("/m"), "/m/parakeet-tdt-1.1b-onnx");
    assert_eq!(get_default_coreml_model_path("/m"), "/m/parakeet-tdt-1.1b-coreml");
    assert_eq!(get_default_vad_model_path("/m"), "/m/silero-vad/silero_vad.onnx");
    assert_eq!(default_config_path("/home/user/.config/swictation"), "/home/user/.config/swictation/config.toml");
}
