use lapsphere::keyboard::HardwareInterface;
use lapsphere::profile::{
    aborts_on_failure, nvidia_gpu_index, plan_profile, GpuIdentity, GpuProfileRequest, LastApplied, ProfileStep,
};
use lapsphere::types::{CpuSettings, NvidiaFanSettings};

fn no_gpu_request() -> GpuProfileRequest {
    GpuProfileRequest {
        power_limit: None,
        core_offset_set: false,
        memory_offset_set: false,
        min_gpu_clock: None,
        max_gpu_clock: None,
        nvidia_fans: Vec::new(),
    }
}

#[test]
fn empty_profile_resets_clocks_and_applies_keyboard_screen_and_fans() {
    let plan = plan_profile(&CpuSettings::default(), None, &no_gpu_request(), 0);
    assert_eq!(
        plan,
        vec![ProfileStep::GpuResetClocks { gpu: 0 }, ProfileStep::Keyboard, ProfileStep::Screen, ProfileStep::Fans]
    );
}

#[test]
fn full_profile_runs_in_the_documented_order() {
    let mut cpu = CpuSettings::default();
    cpu.governor = Some("powersave".to_string());
    cpu.tdp_profile = Some("balanced".to_string());
    cpu.tdp0 = Some(35);
    cpu.tdp2 = Some(60);
    cpu.amd_pstate_status = Some("active".to_string());
    cpu.energy_performance_preference = Some("power".to_string());
    cpu.min_frequency = Some(400_000);
    cpu.max_frequency = Some(3_000_000);
    cpu.boost = Some(false);
    cpu.smt = Some(true);
    let gpu = GpuProfileRequest {
        power_limit: Some(80),
        core_offset_set: true,
        memory_offset_set: false,
        min_gpu_clock: Some(300),
        max_gpu_clock: Some(1800),
        nvidia_fans: vec![
            NvidiaFanSettings { device_index: 1, fan_id: 0, speed: 70, manual: true },
            NvidiaFanSettings { device_index: 1, fan_id: 1, speed: 30, manual: false },
        ],
    };
    let plan = plan_profile(&cpu, Some(HardwareInterface::Uniwill), &gpu, 1);
    assert_eq!(
        plan,
        vec![
            ProfileStep::Governor,
            ProfileStep::TdpProfile,
            ProfileStep::VendorTdp { slot: 0, value: 35 },
            ProfileStep::VendorTdp { slot: 2, value: 60 },
            ProfileStep::AmdPstateStatus,
            ProfileStep::EnergyPerformancePreference,
            ProfileStep::FrequencyLimits { min: 400_000, max: 3_000_000 },
            ProfileStep::GpuPowerLimit { gpu: 1, limit: 80 },
            ProfileStep::GpuCoreOffset { gpu: 1 },
            ProfileStep::GpuLockedClocks { gpu: 1, min: 300, max: 1800 },
            ProfileStep::Boost(false),
            ProfileStep::Smt(true),
            ProfileStep::Keyboard,
            ProfileStep::Screen,
            ProfileStep::Fans,
            ProfileStep::GpuFanSpeed { gpu: 1, fan: 0, speed: 70 },
            ProfileStep::GpuFanAuto { gpu: 1, fan: 1 },
        ]
    );
}

#[test]
fn vendor_power_limits_need_the_uniwill_interface_and_one_bound_is_not_enough() {
    let mut cpu = CpuSettings::default();
    cpu.tdp1 = Some(45);
    cpu.min_frequency = Some(400_000);
    let plan = plan_profile(&cpu, Some(HardwareInterface::Clevo), &no_gpu_request(), 0);
    assert!(!plan.iter().any(|s| matches!(s, ProfileStep::VendorTdp { .. } | ProfileStep::FrequencyLimits { .. })));
}

#[test]
fn cpu_steps_abort_and_gpu_steps_are_best_effort() {
    assert!(aborts_on_failure(ProfileStep::Governor));
    assert!(aborts_on_failure(ProfileStep::Keyboard));
    assert!(aborts_on_failure(ProfileStep::Smt(true)));
    assert!(!aborts_on_failure(ProfileStep::VendorTdp { slot: 0, value: 1 }));
    assert!(!aborts_on_failure(ProfileStep::GpuResetClocks { gpu: 0 }));
    assert!(!aborts_on_failure(ProfileStep::GpuFanAuto { gpu: 0, fan: 0 }));
}

#[test]
fn gpu_steps_address_the_first_nvidia_gpu() {
    let gpus = vec![
        GpuIdentity { name: "AMD Radeon 780M".to_string(), nvml_index: None },
        GpuIdentity { name: "NVIDIA GeForce RTX 4070".to_string(), nvml_index: Some(2) },
        GpuIdentity { name: "nvidia second".to_string(), nvml_index: Some(5) },
    ];
    assert_eq!(nvidia_gpu_index(&gpus), 2);
    assert_eq!(nvidia_gpu_index(&vec![GpuIdentity { name: "NVIDIA".to_string(), nvml_index: None }]), 0);
    assert_eq!(nvidia_gpu_index(&Vec::new()), 0);
}

#[test]
fn failed_apply_clears_the_marker_and_success_records_it() {
    let mut marker: LastApplied<String> = LastApplied::new();
    assert!(marker.last().is_none());
    marker.record("gaming".to_string(), true);
    assert_eq!(marker.last(), Some(&"gaming".to_string()));
    marker.record("office".to_string(), false);
    assert!(marker.last().is_none());
}
