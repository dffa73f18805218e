use lapsphere::types::{
    default_log_filter_trace, default_log_limit, default_smart_rounding_threshold,
    BatterySettings, ConnectionType, CpuSettings, FanSettings, GamepadInfo, GamepadStatus,
    GpuAdvancedSettings, KeyboardMode, KeyboardSettings, PowerStatus, ScreenSettings,
    StatisticsSections,
};

#[test]
fn statistics_defaults_match_a_fresh_gui_install() {
    let s = StatisticsSections::default();
    assert_eq!(s.cpu_poll_rate, 1000);
    assert_eq!(s.memory_poll_rate, 1000);
    assert_eq!(s.gpu_poll_rate, 2000);
    assert_eq!(s.battery_poll_rate, 5000);
    assert_eq!(s.storage_poll_rate, 5000);
    assert_eq!(s.fans_poll_rate, 1000);
    assert_eq!(s.gamepad_poll_rate, 5000);
    assert_eq!(s.gpu_overclock_poll_rate, 1000);
    assert_eq!(
        s.section_order,
        vec!["SystemInfo", "CPU", "Memory", "GPU", "Battery", "WiFi", "Storage", "Fans", "Gamepads"]
    );
    assert!(s.show_memory && s.show_gamepads);
}

#[test]
fn settings_defaults() {
    assert_eq!(
        BatterySettings::default(),
        BatterySettings { control_enabled: false, charge_start_threshold: 40, charge_end_threshold: 80 }
    );
    assert_eq!(ScreenSettings::default(), ScreenSettings { brightness: 50, system_control: true });
    assert_eq!(
        KeyboardSettings::default().mode,
        KeyboardMode::SingleColor { r: 255, g: 255, b: 255, brightness: 50 }
    );
    assert!(FanSettings::default().curves.is_empty());
    assert_eq!(CpuSettings::default().governor, None);
    let adv = GpuAdvancedSettings::default();
    assert_eq!((adv.drain_offset_lmin, adv.smart_rounding_threshold), (-30, 15));
    assert_eq!(default_smart_rounding_threshold(), 15);
    assert_eq!(default_log_limit(), 100);
    assert!(!default_log_filter_trace());
    let g = GamepadInfo::default();
    assert_eq!(
        (g.status, g.connection_type, g.power_status),
        (GamepadStatus::Disconnected, ConnectionType::Unknown, PowerStatus::Unknown)
    );
}
