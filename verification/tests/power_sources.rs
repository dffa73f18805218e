use lapsphere::power_sources::{cpu_power_source, hwmon_power_source, reported_power_source};

fn names(v: &[&str]) -> Vec<String> {
    v.iter().map(|s| s.to_string()).collect()
}

#[test]
fn hwmon_drivers_that_report_cpu_power() {
    assert_eq!(hwmon_power_source("amdgpu", true), Some("AMD APU Total Power (CPU+iGPU)".to_string()));
    assert_eq!(hwmon_power_source("amdgpu", false), None);
    assert_eq!(hwmon_power_source("zenpower", false), Some("Zenpower Driver (AMD Ryzen)".to_string()));
    assert_eq!(hwmon_power_source("amd_energy", true), Some("AMD Energy Driver".to_string()));
    assert_eq!(hwmon_power_source("coretemp", true), None);
}

#[test]
fn apu_total_is_the_cpu_power_only_without_an_amd_dgpu() {
    let found = names(&["RAPL", "amdgpu", "zenpower"]);
    assert_eq!(cpu_power_source(&found, true, 0), Some(1));
    assert_eq!(cpu_power_source(&found, true, 1), Some(2));
    assert_eq!(cpu_power_source(&found, false, 0), Some(0));
}

#[test]
fn cpu_power_falls_back_to_amd_energy_then_rapl() {
    assert_eq!(cpu_power_source(&names(&["RAPL", "amd_energy"]), true, 2), Some(1));
    assert_eq!(cpu_power_source(&names(&["amd_energy", "RAPL"]), false, 0), Some(1));
    assert_eq!(cpu_power_source(&names(&["amdgpu"]), true, 1), None);
    assert_eq!(cpu_power_source(&names(&[]), true, 0), None);
}

#[test]
fn reported_source_prefers_amdgpu_then_rapl() {
    assert_eq!(reported_power_source(&names(&["RAPL", "amdgpu"])), Some(1));
    assert_eq!(reported_power_source(&names(&["zenpower", "RAPL"])), Some(1));
    assert_eq!(reported_power_source(&names(&["zenpower"])), None);
}
