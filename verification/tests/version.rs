use swictation::version::{version_long, version_short, VersionInfo};

fn info(features: Vec<&'static str>, commit: Option<&'static str>) -> VersionInfo {
    VersionInfo::current("0.7.1", "2.0.0", "x86_64-unknown-linux-gnu", false, features, commit, "2025-01-01")
}

#[test]
fn short_version_names_the_daemon() {
    assert_eq!(version_short("0.7.1"), "swictation-daemon 0.7.1");
}

#[test]
fn current_takes_the_build_metadata() {
    let v = info(vec![], None);
    assert_eq!(v.profile, "release");
    let d = VersionInfo::current("1", "2", "t", true, vec![], None, "ts");
    assert_eq!(d.profile, "debug");
    assert_eq!(v.model_compatibility().len(), 2);
    assert_eq!(v.gpu_libraries().len(), 2);
}

#[test]
fn long_version_report() {
    let v = info(vec!["sway-integration", "gpu-info"], Some("abc123"));
    let expected = "swictation-daemon 0.7.1\n\
\n\
Build Information:\n\
\x20 ONNX Runtime: 2.0.0\n\
\x20 Target:       x86_64-unknown-linux-gnu\n\
\x20 Profile:      release\n\
\x20 Build Date:   2025-01-01\n\
\x20 Git Commit:   abc123\n\
\x20 Features:     sway-integration, gpu-info\n\
\n\
Model Compatibility:\n\
\x20 • Parakeet-TDT-0.6B-V3 (ONNX)\n\
\x20 • Parakeet-TDT-1.1B-V3 (ONNX)\n\
\n\
GPU Libraries:\n\
\x20 • CUDA 11.8 + cuDNN 8.9.7 (Maxwell/Pascal/Volta)\n\
\x20 • CUDA 12.9 + cuDNN 9.15.1 (Turing/Ampere/Ada/Hopper/Blackwell)\n";
    assert_eq!(version_long(&v), expected);
    assert_eq!(v.render(), expected);
}

#[test]
fn report_omits_missing_commit_and_features() {
    let v = info(vec![], None);
    let report = version_long(&v);
    assert!(!report.contains("Git Commit"));
    assert!(!report.contains("Features"));
    assert!(report.starts_with("swictation-daemon 0.7.1\n\nBuild Information:\n"));
}

#[test]
fn report_lines_follow_the_build() {
    let with = version_long(&info(vec!["gpu-info"], Some("abc123")));
    let lines: Vec<&str> = with.lines().collect();
    assert!(lines.contains(&"  Git Commit:   abc123"));
    assert!(lines.contains(&"  Features:     gpu-info"));
    assert_eq!(lines.iter().filter(|l| l.starts_with("  \u{2022} ")).count(), 4);
    let without = version_long(&info(vec![], None));
    assert!(!without.lines().any(|l| l.starts_with("  Git Commit:")));
    assert!(!without.lines().any(|l| l.starts_with("  Features:")));
    assert_eq!(without.lines().filter(|l| l.starts_with("  \u{2022} ")).count(), 4);
}
