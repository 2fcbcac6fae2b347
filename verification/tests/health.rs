use herdr_core::health::{cpu_usage_percentage, CpuTimes, HealthSampler, PlatformHealthProbe, ResourceUsage};

#[test]
fn cpu_percentage_uses_delta_between_samples() {
    assert_eq!(
        cpu_usage_percentage(Some(CpuTimes { busy: 1_000, total: 2_000 }), Some(CpuTimes { busy: 1_075, total: 2_100 })),
        Some(75)
    );
}

#[test]
fn cpu_percentage_needs_two_monotonic_samples() {
    assert_eq!(cpu_usage_percentage(None, Some(CpuTimes { busy: 10, total: 20 })), None);
    assert_eq!(
        cpu_usage_percentage(Some(CpuTimes { busy: 10, total: 20 }), Some(CpuTimes { busy: 5, total: 10 })),
        None
    );
}

#[test]
fn resource_usage_clamps_used_bytes_to_total() {
    assert_eq!(ResourceUsage::new(12, 10), Some(ResourceUsage { used_bytes: 10, total_bytes: 10 }));
    assert_eq!(ResourceUsage::new(0, 0), None);
}

#[test]
fn cpu_percentage_rounds_to_nearest_and_caps_busy_at_total() {
    assert_eq!(cpu_usage_percentage(Some(CpuTimes { busy: 0, total: 0 }), Some(CpuTimes { busy: 1, total: 3 })), Some(33));
    assert_eq!(cpu_usage_percentage(Some(CpuTimes { busy: 0, total: 0 }), Some(CpuTimes { busy: 2, total: 3 })), Some(67));
    assert_eq!(cpu_usage_percentage(Some(CpuTimes { busy: 0, total: 0 }), Some(CpuTimes { busy: 9, total: 3 })), Some(100));
    assert_eq!(cpu_usage_percentage(Some(CpuTimes { busy: 5, total: 5 }), Some(CpuTimes { busy: 5, total: 5 })), None);
}

#[test]
fn sampler_keeps_the_last_cpu_sample() {
    let mut sampler = HealthSampler::new();
    let first = sampler.sample_from(PlatformHealthProbe {
        cpu_times: Some(CpuTimes { busy: 100, total: 200 }),
        battery: None,
        ram: ResourceUsage::new(1, 2),
        disk: None,
    });
    assert_eq!(first.cpu_usage_percentage, None);
    assert_eq!(first.ram, Some(ResourceUsage { used_bytes: 1, total_bytes: 2 }));
    let second = sampler.sample_from(PlatformHealthProbe { cpu_times: None, battery: None, ram: None, disk: None });
    assert_eq!(second.cpu_usage_percentage, None);
    let third = sampler.sample_from(PlatformHealthProbe {
        cpu_times: Some(CpuTimes { busy: 150, total: 300 }),
        battery: None,
        ram: None,
        disk: None,
    });
    assert_eq!(third.cpu_usage_percentage, Some(50));
}
