use swictation::metrics::{expand_db_path, CpuProvider, DaemonState, GpuMonitor, MemoryError};

#[test]
fn test_gpu_monitor_cpu() {
    let monitor = GpuMonitor::new("cpu");
    assert_eq!(monitor.provider(), "cpu");
    assert_eq!(monitor.device_name(), "CPU Fallback");
}

#[test]
fn test_gpu_monitor_cuda() {
    let monitor = GpuMonitor::new("cuda");
    assert_eq!(monitor.provider(), "cuda");
    assert!(monitor.device_name().contains("NVIDIA"));
}

#[test]
fn gpu_monitor_names() {
    assert_eq!(GpuMonitor::new("directml").device_name(), "DirectML GPU");
    assert_eq!(GpuMonitor::new("coreml").device_name(), "Apple Silicon (CoreML)");
    assert_eq!(GpuMonitor::new("tpu").device_name(), "Unknown (tpu)");
}

#[test]
fn states_and_errors_are_named() {
    assert_eq!(DaemonState::Idle.as_str(), "idle");
    assert_eq!(DaemonState::Recording.as_str(), "recording");
    assert_eq!(DaemonState::Processing.as_str(), "processing");
    assert_eq!(DaemonState::Error.as_str(), "error");
    assert_eq!(
        MemoryError::GpuQuery("nvml".to_string()).message(),
        "Failed to query GPU memory: nvml"
    );
    let cpu = CpuProvider::new();
    assert_eq!(cpu.device_name(), "CPU (No GPU)");
    assert_eq!(cpu.get_stats(), MemoryError::UnsupportedPlatform);
}

#[test]
fn database_paths_expand_home() {
    assert_eq!(expand_db_path("~/db/metrics.db", Some("/home/u")), "/home/u/db/metrics.db");
    assert_eq!(expand_db_path("~metrics.db", Some("/home/u")), "/home/u/~metrics.db");
    assert_eq!(expand_db_path("/var/m.db", Some("/home/u")), "/var/m.db");
    assert_eq!(expand_db_path("~/m.db", None), "~/m.db");
}
