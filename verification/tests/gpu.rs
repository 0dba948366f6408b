use swictation::daemon::{select_stt_model, SttModel};
use swictation::gpu::{
    detect_gpu_provider, get_gpu_memory_mb, is_apple_silicon, parse_nvidia_vram, GpuProbe,
    Platform,
};

struct TestCase {
    vram_mb: u64,
    expected_model: &'static str,
    reason: &'static str,
}

fn probe(platform: Platform, coreml: bool, directml: bool, cuda: bool) -> GpuProbe {
    GpuProbe {
        platform,
        coreml_available: coreml,
        directml_available: directml,
        cuda_available: cuda,
    }
}

#[test]
fn test_gpu_detection() {
    let provider = detect_gpu_provider(probe(Platform::Linux, false, false, false));
    println!("Detected GPU provider: {:?}", provider);
}

#[test]
fn test_vram_detection() {
    let vram = get_gpu_memory_mb(Some("24576, 23456\n"));

    match vram {
        Some((total, free)) => {
            println!("Detected NVIDIA GPU: {}MB total, {}MB free", total, free);

            assert!(total > 0, "Total VRAM should be positive");
            assert!(free <= total, "Free VRAM should not exceed total");
            assert!(free > 0, "Free VRAM should be positive (system uses some)");
            assert!(
                total >= 512,
                "Total VRAM should be at least 512MB for any modern GPU"
            );
        }
        None => {
            println!("No NVIDIA GPU detected (expected on CPU-only systems)");
        }
    }
    assert_eq!(vram, Some((24576, 23456)));
    assert_eq!(get_gpu_memory_mb(None), None);
}

#[test]
fn test_vram_thresholds() {
    let model_1_1b_peak = 3500;
    let threshold_1_1b = 4096;
    let headroom_1_1b = threshold_1_1b - model_1_1b_peak;

    assert!(
        headroom_1_1b >= 500,
        "1.1B model threshold ({}MB) must have at least 500MB headroom (actual: {}MB)",
        threshold_1_1b,
        headroom_1_1b
    );

    println!(
        "1.1B INT8 threshold: {}MB (peak {}MB + {}MB headroom = {:.1}% margin)",
        threshold_1_1b,
        model_1_1b_peak,
        headroom_1_1b,
        (headroom_1_1b as f32 / model_1_1b_peak as f32) * 100.0
    );

    let model_0_6b_peak = 1200;
    let threshold_0_6b = 1536;
    let headroom_0_6b = threshold_0_6b - model_0_6b_peak;

    assert!(
        headroom_0_6b >= 300,
        "0.6B model threshold ({}MB) must have at least 300MB headroom (actual: {}MB)",
        threshold_0_6b,
        headroom_0_6b
    );

    println!(
        "0.6B GPU threshold: {}MB (peak {}MB + {}MB headroom = {:.1}% margin)",
        threshold_0_6b,
        model_0_6b_peak,
        headroom_0_6b,
        (headroom_0_6b as f32 / model_0_6b_peak as f32) * 100.0
    );

    assert!(
        threshold_1_1b > threshold_0_6b,
        "1.1B threshold ({}MB) must be greater than 0.6B threshold ({}MB)",
        threshold_1_1b,
        threshold_0_6b
    );
}

#[test]
fn test_model_selection_logic() {
    let test_cases = vec![
        TestCase {
            vram_mb: 512,
            expected_model: "0.6B CPU",
            reason: "VRAM < 1536MB (insufficient for 0.6B GPU)",
        },
        TestCase {
            vram_mb: 1024,
            expected_model: "0.6B CPU",
            reason: "VRAM < 1536MB (insufficient for 0.6B GPU)",
        },
        TestCase {
            vram_mb: 1536,
            expected_model: "0.6B GPU",
            reason: "VRAM >= 1536MB but < 4096MB (0.6B GPU range)",
        },
        TestCase {
            vram_mb: 2048,
            expected_model: "0.6B GPU",
            reason: "VRAM >= 1536MB but < 4096MB (0.6B GPU range)",
        },
        TestCase {
            vram_mb: 3072,
            expected_model: "0.6B GPU",
            reason: "VRAM >= 1536MB but < 4096MB (0.6B GPU range)",
        },
        TestCase {
            vram_mb: 4096,
            expected_model: "1.1B GPU INT8",
            reason: "VRAM >= 4096MB (strong GPU)",
        },
        TestCase {
            vram_mb: 8192,
            expected_model: "1.1B GPU INT8",
            reason: "VRAM >= 4096MB (strong GPU)",
        },
        TestCase {
            vram_mb: 24576,
            expected_model: "1.1B GPU INT8",
            reason: "VRAM >= 4096MB (strong GPU)",
        },
        TestCase {
            vram_mb: 81920,
            expected_model: "1.1B GPU INT8",
            reason: "VRAM >= 4096MB (strong GPU)",
        },
    ];

    let test_count = test_cases.len();
    for tc in test_cases {
        let selected = match select_stt_model("auto", Some(tc.vram_mb), false) {
            Ok(SttModel::Parakeet1_1bGpu) => "1.1B GPU INT8",
            Ok(SttModel::Parakeet0_6bGpu) => "0.6B GPU",
            Ok(SttModel::Parakeet0_6bCpu) => "0.6B CPU",
            other => panic!("unexpected selection {:?}", other),
        };

        assert_eq!(
            selected, tc.expected_model,
            "VRAM {}MB should select '{}' but got '{}' ({})",
            tc.vram_mb, tc.expected_model, selected, tc.reason
        );
    }

    println!("All {} test cases passed", test_count);
}

#[test]
fn provider_priority_follows_platform() {
    assert_eq!(
        detect_gpu_provider(probe(Platform::MacOs, true, false, true)),
        Some("coreml".to_string())
    );
    assert_eq!(detect_gpu_provider(probe(Platform::MacOs, false, false, true)), None);
    assert_eq!(
        detect_gpu_provider(probe(Platform::Windows, false, true, true)),
        Some("directml".to_string())
    );
    assert_eq!(
        detect_gpu_provider(probe(Platform::Windows, false, false, true)),
        Some("cuda".to_string())
    );
    assert_eq!(
        detect_gpu_provider(probe(Platform::Linux, true, true, true)),
        Some("cuda".to_string())
    );
}

#[test]
fn nvidia_output_is_validated() {
    assert_eq!(parse_nvidia_vram("  8192 ,  7000  "), Some((8192, 7000)));
    assert_eq!(parse_nvidia_vram("8192,7000,extra"), Some((8192, 7000)));
    assert_eq!(parse_nvidia_vram("+8192, +7000"), Some((8192, 7000)));
    assert_eq!(parse_nvidia_vram(""), None);
    assert_eq!(parse_nvidia_vram("8192"), None);
    assert_eq!(parse_nvidia_vram("0, 0"), None);
    assert_eq!(parse_nvidia_vram("100, 200"), None);
    assert_eq!(parse_nvidia_vram("abc, 1"), None);
    assert_eq!(parse_nvidia_vram("-5, 1"), None);
    assert_eq!(parse_nvidia_vram("18446744073709551616, 1"), None);
    assert_eq!(
        parse_nvidia_vram("18446744073709551615, 1"),
        Some((18446744073709551615, 1))
    );
    // Two GPUs: the second line ends up inside the free field and fails.
    assert_eq!(parse_nvidia_vram("24576, 23456\n8192, 8000"), None);
}

#[test]
fn apple_silicon_is_aarch64() {
    assert!(is_apple_silicon("aarch64"));
    assert!(!is_apple_silicon("x86_64"));
}
