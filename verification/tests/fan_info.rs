use lapsphere::fan_info::{
    fan_mode, gpu_fan_id, gpu_fan_is_manual, gpu_fan_name, nvidia_adapter_awake, system_fan_name, DriverEntry,
};
use lapsphere::types::NvidiaFanSettings;

fn entry(name: &str, status: Option<&str>) -> DriverEntry {
    DriverEntry { name: name.to_string(), runtime_status: status.map(|s| s.to_string()) }
}

#[test]
fn an_awake_adapter_is_a_pci_entry_that_is_not_suspended() {
    assert!(!nvidia_adapter_awake(&vec![entry("module", Some("active")), entry("0000:01:00.0", Some("suspended\n"))]));
    assert!(nvidia_adapter_awake(&vec![entry("0000:01:00.0", Some("active\n"))]));
    assert!(!nvidia_adapter_awake(&vec![entry("0000:01:00.0", None)]));
    assert!(!nvidia_adapter_awake(&Vec::new()));
}

#[test]
fn fan_rows_are_named_and_numbered() {
    assert_eq!(gpu_fan_id(0, 1), 101);
    assert_eq!(gpu_fan_id(2, 3), 123);
    assert_eq!(system_fan_name(1), "System Fan 1");
    assert_eq!(gpu_fan_name(0, 2), "NVIDIA GPU 0 Fan 2");
    assert_eq!(fan_mode(true), "Manual");
    assert_eq!(fan_mode(false), "Auto");
}

#[test]
fn gpu_fan_mode_follows_the_saved_settings() {
    let s = vec![
        NvidiaFanSettings { device_index: 0, fan_id: 0, speed: 60, manual: true },
        NvidiaFanSettings { device_index: 0, fan_id: 1, speed: 60, manual: false },
    ];
    assert!(gpu_fan_is_manual(&s, 0, 0));
    assert!(!gpu_fan_is_manual(&s, 0, 1));
    assert!(!gpu_fan_is_manual(&s, 1, 0));
    assert!(!gpu_fan_is_manual(&Vec::new(), 0, 0));
}
