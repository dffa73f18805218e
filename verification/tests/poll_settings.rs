use lapsphere::poll_settings::{
    compute_interval_updates, DaemonPollSettings, StatisticsSectionsMirror, MIN_POLL_INTERVAL_MS,
};
use std::time::Duration;

#[test]
fn diff_only_reports_changed_jobs() {
    let prev = DaemonPollSettings::default();
    let next = DaemonPollSettings {
        hardware_monitor_ms: 1000,
        fan_control_ms: 750,
        gpu_overclock_ms: 1000,
    };
    let updates = compute_interval_updates(&prev, &next);
    assert_eq!(updates.len(), 1);
    assert_eq!(updates[0].0, "fan_control");
    assert_eq!(updates[0].1, Duration::from_millis(750));
}

#[test]
fn identical_settings_produce_no_updates() {
    let a = DaemonPollSettings::default();
    assert!(compute_interval_updates(&a, &a).is_empty());
}

#[test]
fn every_changed_job_is_reported_in_job_order() {
    let prev = DaemonPollSettings::default();
    let next = DaemonPollSettings {
        hardware_monitor_ms: 250,
        fan_control_ms: 3000,
        gpu_overclock_ms: 60,
    };
    let updates = compute_interval_updates(&prev, &next);
    assert_eq!(updates.len(), 3);
    assert_eq!(updates[0], ("hardware_monitor", Duration::from_millis(250)));
    assert_eq!(updates[1], ("fan_control", Duration::from_millis(3000)));
    assert_eq!(updates[2], ("gpu_overclock", Duration::from_millis(60)));
}

#[test]
fn legacy_defaults_are_one_two_and_one_second() {
    let d = DaemonPollSettings::default();
    assert_eq!(d.hardware_monitor_ms, 1000);
    assert_eq!(d.fan_control_ms, 2000);
    assert_eq!(d.gpu_overclock_ms, 1000);
    assert_eq!(d.hardware_monitor(), Duration::from_secs(1));
    assert_eq!(d.fan_control(), Duration::from_secs(2));
    assert_eq!(d.gpu_overclock(), Duration::from_secs(1));
}

#[test]
fn gui_rates_map_to_jobs_with_the_faster_monitor_rate() {
    let s = StatisticsSectionsMirror {
        cpu_poll_rate: 500,
        memory_poll_rate: 800,
        gpu_poll_rate: 2000,
        fans_poll_rate: 1500,
        gpu_overclock_poll_rate: 3000,
    };
    let d = DaemonPollSettings::from_sections(&s);
    assert_eq!(d.hardware_monitor_ms, 500);
    assert_eq!(d.fan_control_ms, 1500);
    assert_eq!(d.gpu_overclock_ms, 3000);
}

#[test]
fn gui_defaults_give_one_second_for_every_job() {
    let d = DaemonPollSettings::from_sections(&StatisticsSectionsMirror::default());
    assert_eq!(d.hardware_monitor_ms, 1000);
    assert_eq!(d.fan_control_ms, 1000);
    assert_eq!(d.gpu_overclock_ms, 1000);
}

#[test]
fn absurdly_fast_gui_rates_are_floored() {
    let s = StatisticsSectionsMirror {
        cpu_poll_rate: 1,
        memory_poll_rate: 1000,
        gpu_poll_rate: 2000,
        fans_poll_rate: 0,
        gpu_overclock_poll_rate: 10,
    };
    let d = DaemonPollSettings::from_sections(&s);
    assert_eq!(d.hardware_monitor_ms, MIN_POLL_INTERVAL_MS);
    assert_eq!(d.fan_control_ms, MIN_POLL_INTERVAL_MS);
    assert_eq!(d.gpu_overclock_ms, MIN_POLL_INTERVAL_MS);
}

#[test]
fn full_gui_payload_maps_jobs() {
    let sections = StatisticsSectionsMirror {
        cpu_poll_rate: 500,
        memory_poll_rate: 800,
        gpu_poll_rate: 2000,
        fans_poll_rate: 1500,
        gpu_overclock_poll_rate: 3000,
    };
    let s = DaemonPollSettings::from_sections(&sections);
    // hardware_monitor = min(cpu=500, gpu=2000)
    assert_eq!(s.hardware_monitor_ms, 500);
    assert_eq!(s.fan_control_ms, 1500);
    assert_eq!(s.gpu_overclock_ms, 3000);
}

#[test]
fn partial_payload_takes_serde_defaults_for_missing_fields() {
    // Only the GPU rate given; every other field keeps the GUI default.
    let sections = StatisticsSectionsMirror { gpu_poll_rate: 400, ..StatisticsSectionsMirror::default() };
    let s = DaemonPollSettings::from_sections(&sections);
    assert_eq!(s.hardware_monitor_ms, 400);
    assert_eq!(s.fan_control_ms, 1000);
    assert_eq!(s.gpu_overclock_ms, 1000);
}

#[test]
fn absurdly_fast_rates_are_clamped() {
    let sections = StatisticsSectionsMirror {
        cpu_poll_rate: 1,
        fans_poll_rate: 0,
        gpu_overclock_poll_rate: 10,
        ..StatisticsSectionsMirror::default()
    };
    let s = DaemonPollSettings::from_sections(&sections);
    assert!(s.hardware_monitor_ms >= 50);
    assert!(s.fan_control_ms >= 50);
    assert!(s.gpu_overclock_ms >= 50);
}
