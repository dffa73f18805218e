use lapsphere::cpu_control::{
    restore_cpu_frequency_limits, set_all_cpu_epp, set_amd_pstate_status, set_cpu_boost,
    set_cpu_frequency_limits, set_cpu_governor, set_energy_performance_preference,
    set_intel_pstate_status, set_smt, ControlError, WritePlan,
};
use lapsphere::sysfs_guard::GuardError;

fn writes(p: &WritePlan) -> Vec<(String, String)> {
    p.writes.iter().map(|w| (w.path.clone(), w.contents.clone())).collect()
}

fn w(path: &str, contents: &str) -> (String, String) {
    (path.to_string(), contents.to_string())
}

#[test]
fn governor_goes_to_cpu0_first_then_every_cpu() {
    let p = set_cpu_governor("powersave", 2);
    assert!(p.outcome.is_ok());
    assert_eq!(
        writes(&p),
        vec![
            w("/sys/devices/system/cpu/cpu0/cpufreq/scaling_governor", "powersave"),
            w("/sys/devices/system/cpu/cpu0/cpufreq/scaling_governor", "powersave"),
            w("/sys/devices/system/cpu/cpu1/cpufreq/scaling_governor", "powersave"),
        ]
    );
}

#[test]
fn an_unsanctioned_governor_writes_nothing() {
    let p = set_cpu_governor("invalid-governor-token", 8);
    assert!(p.writes.is_empty());
    assert!(matches!(p.outcome, Err(ControlError::Guard(GuardError::GovernorRejected))));
}

#[test]
fn lowering_the_range_sets_max_before_min() {
    let p = set_cpu_frequency_limits(400_000, 2_000_000, Some(800_000), Some(4_000_000), 1, Some((400_000, 4_800_000)));
    assert!(p.outcome.is_ok());
    assert_eq!(
        writes(&p),
        vec![
            w("/sys/devices/system/cpu/cpu0/cpufreq/scaling_max_freq", "2000000"),
            w("/sys/devices/system/cpu/cpu0/cpufreq/scaling_min_freq", "400000"),
        ]
    );
}

#[test]
fn raising_the_range_sets_min_before_max() {
    let p = set_cpu_frequency_limits(800_000, 4_000_000, Some(800_000), Some(2_000_000), 1, None);
    assert_eq!(
        writes(&p),
        vec![
            w("/sys/devices/system/cpu/cpu0/cpufreq/scaling_min_freq", "800000"),
            w("/sys/devices/system/cpu/cpu0/cpufreq/scaling_max_freq", "4000000"),
        ]
    );
}

#[test]
fn an_out_of_range_limit_stops_after_the_accepted_writes() {
    // max first (it is lowered), then min is below the hardware floor.
    let p = set_cpu_frequency_limits(100_000, 2_000_000, None, Some(4_000_000), 2, Some((400_000, 4_800_000)));
    assert_eq!(writes(&p), vec![w("/sys/devices/system/cpu/cpu0/cpufreq/scaling_max_freq", "2000000")]);
    assert!(matches!(
        p.outcome,
        Err(ControlError::Guard(GuardError::FrequencyOutOfRange { value: 100_000, .. }))
    ));
}

#[test]
fn limits_are_restored_only_when_modified_and_known() {
    assert_eq!(restore_cpu_frequency_limits(false, Some(1), Some(2)), None);
    assert_eq!(restore_cpu_frequency_limits(true, Some(1), None), None);
    assert_eq!(restore_cpu_frequency_limits(true, Some(1), Some(2)), Some((1, 2)));
}

#[test]
fn boost_picks_the_first_available_attribute() {
    let p = set_cpu_boost(true, true, true, true);
    assert_eq!(writes(&p), vec![w("/sys/devices/system/cpu/cpufreq/boost", "1")]);
    let p = set_cpu_boost(true, false, true, true);
    assert_eq!(writes(&p), vec![w("/sys/devices/system/cpu/intel_pstate/no_turbo", "0")]);
    let p = set_cpu_boost(false, false, false, true);
    assert_eq!(writes(&p), vec![w("/sys/devices/system/cpu/amd_pstate/cpb_boost", "0")]);
    let p = set_cpu_boost(true, false, false, false);
    assert!(p.writes.is_empty());
    assert!(matches!(p.outcome, Err(ControlError::BoostUnavailable)));
}

#[test]
fn smt_and_pstate_requests() {
    assert_eq!(writes(&set_smt(false, true)), vec![w("/sys/devices/system/cpu/smt/control", "off")]);
    assert!(matches!(set_smt(true, false).outcome, Err(ControlError::SmtUnavailable)));
    assert_eq!(
        writes(&set_amd_pstate_status("guided", true)),
        vec![w("/sys/devices/system/cpu/amd_pstate/status", "guided")]
    );
    assert!(matches!(set_amd_pstate_status("fast", true).outcome, Err(ControlError::InvalidAmdPstateStatus)));
    assert!(matches!(set_amd_pstate_status("active", false).outcome, Err(ControlError::AmdPstateUnavailable)));
    assert!(matches!(set_intel_pstate_status("guided", true).outcome, Err(ControlError::InvalidIntelPstateStatus)));
    assert!(matches!(set_intel_pstate_status("active", false).outcome, Err(ControlError::IntelPstateUnavailable)));
    assert!(set_intel_pstate_status("passive", true).outcome.is_ok());
}

#[test]
fn epp_goes_to_every_cpu_that_has_it() {
    let p = set_energy_performance_preference("balance_power", &[true, false, true]);
    assert!(p.outcome.is_ok());
    assert_eq!(
        writes(&p),
        vec![
            w("/sys/devices/system/cpu/cpu0/cpufreq/energy_performance_preference", "balance_power"),
            w("/sys/devices/system/cpu/cpu2/cpufreq/energy_performance_preference", "balance_power"),
        ]
    );
    let p = set_energy_performance_preference("turbo", &[true]);
    assert!(p.writes.is_empty());
    assert!(matches!(p.outcome, Err(ControlError::InvalidEpp)));
}

#[test]
fn the_cpufreq_wide_epp_attribute_is_not_on_the_allowlist() {
    let p = set_all_cpu_epp("power", &[true], true);
    assert_eq!(
        writes(&p),
        vec![w("/sys/devices/system/cpu/cpu0/cpufreq/energy_performance_preference", "power")]
    );
    assert!(matches!(p.outcome, Err(ControlError::Guard(GuardError::NotAllowlisted))));
    assert!(set_all_cpu_epp("power", &[true], false).outcome.is_ok());
}
