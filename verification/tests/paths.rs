use std::path::Path;

use swictation::gpu::Platform;
use swictation::paths::{
    config_dir, data_dir, db_dir, get_config_dir, get_data_dir, get_ipc_socket_path,
    get_logs_dir, get_metrics_socket_path, get_models_dir, get_socket_dir, gpu_libs_dir,
    ipc_socket_path, join, logs_dir, metrics_socket_path, models_dir, socket_dir, PathError,
    PlatformDirs,
};

fn linux_dirs() -> PlatformDirs {
    PlatformDirs {
        platform: Platform::Linux,
        home_dir: Some("/home/user".to_string()),
        data_dir: Some("/home/user/.local/share".to_string()),
        config_dir: Some("/home/user/.config".to_string()),
        runtime_dir: Some("/run/user/1000".to_string()),
    }
}

fn macos_dirs() -> PlatformDirs {
    PlatformDirs {
        platform: Platform::MacOs,
        home_dir: Some("/Users/user".to_string()),
        data_dir: Some("/Users/user/Library/Application Support".to_string()),
        config_dir: Some("/Users/user/Library/Application Support".to_string()),
        runtime_dir: None,
    }
}

fn ipc_socket_path_test() {
    let path = get_ipc_socket_path(&linux_dirs()).expect("Should get socket path");
    assert!(Path::new(&path).ends_with("swictation.sock"));
    assert!(Path::new(&path).is_absolute());
    assert!(path.contains("swictation.sock"), "Should contain socket filename");
}

#[test]
fn socket_utils_test_ipc_socket_path() {
    ipc_socket_path_test();
}

#[test]
fn lib_test_ipc_socket_path() {
    let path = get_ipc_socket_path(&linux_dirs()).expect("Should get socket path");
    assert!(
        path.contains("swictation.sock"),
        "Should contain socket filename"
    );
}

#[test]
fn test_metrics_socket_path() {
    let path = get_metrics_socket_path(&linux_dirs()).unwrap();
    assert!(Path::new(&path).ends_with("swictation_metrics.sock"));
    assert!(Path::new(&path).is_absolute());
}

#[test]
fn test_simple_api() {
    let dirs = linux_dirs();
    let _ = ipc_socket_path(&dirs);
    let _ = data_dir(&dirs);
    let _ = models_dir(&dirs);
    let _ = logs_dir(&dirs);
    let _ = config_dir(&dirs);
    let _ = socket_dir(&dirs);
    let _ = metrics_socket_path(&dirs);
    let _ = db_dir(&dirs);
    let _ = gpu_libs_dir(&dirs);
}

#[test]
fn linux_layout() {
    let dirs = linux_dirs();
    assert_eq!(get_data_dir(&dirs).unwrap(), "/home/user/.local/share/swictation");
    assert_eq!(get_socket_dir(&dirs).unwrap(), "/run/user/1000");
    assert_eq!(get_ipc_socket_path(&dirs).unwrap(), "/run/user/1000/swictation.sock");
    assert_eq!(
        get_metrics_socket_path(&dirs).unwrap(),
        "/run/user/1000/swictation_metrics.sock"
    );
    assert_eq!(get_models_dir(&dirs).unwrap(), "/home/user/.local/share/swictation/models");
    assert_eq!(get_logs_dir(&dirs).unwrap(), "/home/user/.local/share/swictation/logs");
    assert_eq!(get_config_dir(&dirs).unwrap(), "/home/user/.config/swictation");
    assert_eq!(db_dir(&dirs), "/home/user/.local/share/swictation/db");
    assert_eq!(gpu_libs_dir(&dirs), "/home/user/.local/share/swictation/gpu-libs");
}

#[test]
fn linux_without_runtime_dir_uses_data_dir() {
    let mut dirs = linux_dirs();
    dirs.runtime_dir = None;
    assert_eq!(
        get_ipc_socket_path(&dirs).unwrap(),
        "/home/user/.local/share/swictation/swictation.sock"
    );
}

#[test]
fn macos_layout() {
    let dirs = macos_dirs();
    assert_eq!(
        get_socket_dir(&dirs).unwrap(),
        "/Users/user/Library/Application Support/swictation"
    );
    assert_eq!(get_logs_dir(&dirs).unwrap(), "/Users/user/Library/Logs/swictation");
    assert_eq!(
        get_config_dir(&dirs).unwrap(),
        "/Users/user/Library/Application Support/swictation"
    );
}

#[test]
fn missing_directories_are_errors() {
    let dirs = PlatformDirs {
        platform: Platform::MacOs,
        home_dir: None,
        data_dir: None,
        config_dir: None,
        runtime_dir: None,
    };
    assert_eq!(get_data_dir(&dirs), Err(PathError::NoDataDirectory));
    assert_eq!(get_ipc_socket_path(&dirs), Err(PathError::NoDataDirectory));
    assert_eq!(get_logs_dir(&dirs), Err(PathError::NoHomeDirectory));
    assert_eq!(PathError::NoHomeDirectory.message(), "Could not determine home directory");
    assert_eq!(
        PathError::InvalidSocketPath("x".to_string()).message(),
        "Invalid socket path: x"
    );
}

#[test]
fn join_follows_path_join() {
    for (base, name) in [("/a", "b"), ("/a/", "b"), ("", "b"), ("/a", "/b"), ("/a", ""), ("rel", "x/y")] {
        let expected = Path::new(base).join(name).to_string_lossy().into_owned();
        assert_eq!(join(base, name), expected, "joining {base:?} and {name:?}");
    }
}

#[test]
fn test_socket_dir_exists() {
    let dir = get_socket_dir(&linux_dirs()).unwrap();
    assert!(Path::new(&dir).is_absolute());
}

#[test]
fn test_data_dir_creation() {
    let dir = get_data_dir(&linux_dirs()).expect("Should get data directory");
    assert!(Path::new(&dir).ends_with("swictation"), "Should end with app name");
}

#[test]
fn test_models_dir() {
    let dir = get_models_dir(&linux_dirs()).expect("Should get models directory");
    assert!(Path::new(&dir).ends_with("models"), "Should end with 'models'");
}

#[test]
fn test_logs_dir() {
    let dir = get_logs_dir(&linux_dirs()).expect("Should get logs directory");
    assert!(Path::new(&dir).ends_with("logs"));
}

#[test]
fn test_config_dir() {
    let dir = get_config_dir(&linux_dirs()).expect("Should get config directory");
    assert!(Path::new(&dir).ends_with("swictation"));
}
