use lapsphere::overclock::{current_gpu_offsets, gpu_is_tunable, offset_step, overclock_mode, GpuOverclockStats, OffsetStep, OverclockMode};

#[test]
fn dynamic_tuning_needs_both_switches() {
    assert_eq!(overclock_mode(true, true), OverclockMode::On);
    assert_eq!(overclock_mode(true, false), OverclockMode::Off { reset_core_offset: true });
    assert_eq!(overclock_mode(false, true), OverclockMode::Off { reset_core_offset: false });
}

#[test]
fn tunable_only_in_a_performance_state() {
    assert!(gpu_is_tunable("P0"));
    assert!(gpu_is_tunable("p8"));
    assert!(!gpu_is_tunable("suspended"));
    assert!(!gpu_is_tunable("active"));
    assert!(!gpu_is_tunable(""));
}

#[test]
fn an_offset_is_sent_once() {
    let first = offset_step(true, None, 120);
    assert_eq!(first, OffsetStep { send: Some(120), last_applied: Some(120) });
    let again = offset_step(true, first.last_applied, 120);
    assert_eq!(again, OffsetStep { send: None, last_applied: Some(120) });
    let idle = offset_step(false, Some(120), 90);
    assert_eq!(idle, OffsetStep { send: Some(0), last_applied: Some(0) });
    assert_eq!(offset_step(false, Some(0), 90).send, None);
}

#[test]
fn applied_offsets_come_from_the_job_else_the_manual_core_offset() {
    let stats = GpuOverclockStats { freq_offset: 100, drain_offset: -20, power_offset: 5, total_offset: 85 };
    assert_eq!(current_gpu_offsets(Some(stats), Some(40)), (Some(100), Some(-20), Some(5), Some(85)));
    assert_eq!(current_gpu_offsets(None, Some(40)), (None, None, None, Some(40)));
    assert_eq!(current_gpu_offsets(None, None), (None, None, None, None));
}
