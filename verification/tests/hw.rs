//! Hardware profile: quality tiers, memory display.

use ai_hwaccel::{AcceleratorProfile, AcceleratorRegistry};
use salai::hw::{HardwareProfile, QualityTier};

#[test]
fn default_profile() {
    let p = HardwareProfile::default();
    assert_eq!(p.quality, QualityTier::Medium);
    assert!(!p.has_gpu);
    assert_eq!(p.gpu_memory_bytes, 0);
    assert_eq!(p.device_name, "Unknown");
}

#[test]
fn quality_tier_display() {
    assert_eq!(QualityTier::Low.to_string(), "Low");
    assert_eq!(QualityTier::Medium.to_string(), "Medium");
    assert_eq!(QualityTier::High.to_string(), "High");
    assert_eq!(QualityTier::Ultra.to_string(), "Ultra");
}

fn profile_of(profiles: Vec<AcceleratorProfile>) -> HardwareProfile {
    let registry = AcceleratorRegistry::from_profiles(profiles);
    assert!(HardwareProfile::accelerator_memory_fits(&registry));
    HardwareProfile::from_registry(&registry)
}

#[test]
fn classify_quality_no_profile() {
    let p = profile_of(vec![]);
    assert_eq!(p.quality, QualityTier::Low);
    assert_eq!(p.device_name, "CPU");
    assert!(!p.has_gpu);
}

#[test]
fn classify_quality_cpu_only() {
    let p = profile_of(vec![AcceleratorProfile::cpu(16 * 1024 * 1024 * 1024)]);
    assert_eq!(p.quality, QualityTier::Low);
    assert_eq!(p.gpu_memory_bytes, 0);
    assert_eq!(p.accelerator_count, 0);
}

#[test]
fn classify_quality_small_gpu() {
    let p = profile_of(vec![AcceleratorProfile::cuda(0, 2 * 1024 * 1024 * 1024)]);
    assert_eq!(p.quality, QualityTier::Medium);
}

#[test]
fn classify_quality_mid_gpu() {
    let p = profile_of(vec![AcceleratorProfile::cuda(0, 6 * 1024 * 1024 * 1024)]);
    assert_eq!(p.quality, QualityTier::High);
}

#[test]
fn classify_quality_high_gpu() {
    let p = profile_of(vec![AcceleratorProfile::cuda(0, 12 * 1024 * 1024 * 1024)]);
    assert_eq!(p.quality, QualityTier::Ultra);
}

#[test]
fn from_registry_counts_and_sums() {
    let p = profile_of(vec![
        AcceleratorProfile::cpu(32 * 1024 * 1024 * 1024),
        AcceleratorProfile::cuda(0, 4 * 1024 * 1024 * 1024),
        AcceleratorProfile::cuda(1, 4 * 1024 * 1024 * 1024),
    ]);
    assert!(p.has_gpu);
    assert_eq!(p.accelerator_count, 2);
    assert_eq!(p.gpu_memory_bytes, 8 * 1024 * 1024 * 1024);
    assert_eq!(p.quality, QualityTier::Ultra);
    // best_available keeps the last device among equally ranked ones
    assert_eq!(p.device_name, "CUDA GPU (device 1)");
}

#[test]
fn from_registry_ignores_unavailable() {
    let mut gpu = AcceleratorProfile::cuda(0, 8 * 1024 * 1024 * 1024);
    gpu.available = false;
    let p = profile_of(vec![AcceleratorProfile::cpu(1024), gpu]);
    assert!(!p.has_gpu);
    assert_eq!(p.gpu_memory_bytes, 0);
    assert_eq!(p.accelerator_count, 0);
    assert_eq!(p.device_name, "CPU");
    assert_eq!(p.quality, QualityTier::Low);
}

#[test]
fn accelerator_memory_overflow_detected() {
    let registry = AcceleratorRegistry::from_profiles(vec![
        AcceleratorProfile::cuda(0, u64::MAX),
        AcceleratorProfile::cuda(1, 1),
    ]);
    assert!(!HardwareProfile::accelerator_memory_fits(&registry));
}

#[test]
fn detect_returns_valid_profile() {
    let p = HardwareProfile::detect().unwrap();
    assert!(!p.device_name.is_empty());
}

#[test]
fn from_registry_cpu_fallback() {
    let registry = AcceleratorRegistry::detect();
    let p = HardwareProfile::from_registry(&registry);
    assert!(!p.device_name.is_empty());
}

#[test]
fn default_debug_shapes_varies() {
    let mut p = HardwareProfile::default();
    p.quality = QualityTier::Low;
    assert!(!p.default_debug_shapes());
    p.quality = QualityTier::High;
    assert!(p.default_debug_shapes());
}

#[test]
fn gpu_memory_display_zero() {
    let p = HardwareProfile::default();
    assert_eq!(p.gpu_memory_display(), "N/A");
}

#[test]
fn gpu_memory_display_gib() {
    let mut p = HardwareProfile::default();
    p.gpu_memory_bytes = 8 * 1024 * 1024 * 1024;
    assert_eq!(p.gpu_memory_display(), "8.0 GiB");
}

#[test]
fn gpu_memory_display_mib() {
    let mut p = HardwareProfile::default();
    p.gpu_memory_bytes = 512 * 1024 * 1024;
    assert_eq!(p.gpu_memory_display(), "512 MiB");
}

#[test]
fn hw_memory_display() {
    let mut profile = HardwareProfile::default();
    assert_eq!(profile.gpu_memory_display(), "N/A");

    profile.gpu_memory_bytes = 4 * 1024 * 1024 * 1024;
    assert_eq!(profile.gpu_memory_display(), "4.0 GiB");
}

/// The display agrees with formatting the `f64` quotients, ties and large values included.
#[test]
fn gpu_memory_display_matches_float_formatting() {
    let gib = 1024.0 * 1024.0 * 1024.0;
    let mib = 1024.0 * 1024.0;
    let samples: Vec<u64> = vec![
        1,
        524_287,
        524_288,
        1_572_864,
        5 * (1u64 << 28),
        7 * (1u64 << 28),
        (1u64 << 30) - 1,
        1u64 << 30,
        (1u64 << 30) + (1u64 << 26),
        3 * (1u64 << 29),
        123_456_789_012,
        (1u64 << 53) + 1,
        (1u64 << 60) + 12_345,
        u64::MAX,
    ];
    for bytes in samples {
        let mut p = HardwareProfile::default();
        p.gpu_memory_bytes = bytes;
        let g = bytes as f64 / gib;
        let expected = if g >= 1.0 {
            format!("{g:.1} GiB")
        } else {
            format!("{:.0} MiB", bytes as f64 / mib)
        };
        assert_eq!(p.gpu_memory_display(), expected, "bytes = {bytes}");
    }
}
