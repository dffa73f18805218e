use lapsphere::devices::{clock_range_answer, ClockRangeAnswer};
use lapsphere::devices::pstate_clock_span;
use lapsphere::devices::{clock_span, hardware_interface_summary, offset_limits_source, OffsetLimitsSource};
use lapsphere::devices::{
    apply_battery_settings, apply_fan_settings, get_current_tdp_profile, get_gpu_clock_ranges,
    get_tdp_profiles, get_webcam_state, gpu_clock_range_source, nvidia_fan_commands,
    reset_gpu_clocks, set_fan_auto, set_fan_speed, set_gpu_fan_auto, set_gpu_fan_speed,
    set_gpu_locked_clocks, set_gpu_power_limit, set_tdp_profile, set_webcam_state, BatteryCommand,
    ClockRangeSource, DeviceError, FanDaemonUpdate, IoAccess, IoCommand, NvmlCommand,
};
use lapsphere::keyboard::HardwareInterface;
use lapsphere::types::{BatterySettings, NvidiaFanSettings};

const CLEVO: IoAccess = IoAccess::Open(HardwareInterface::Clevo);
const UNIWILL: IoAccess = IoAccess::Open(HardwareInterface::Uniwill);

#[test]
fn fan_speeds_are_capped_at_100_percent() {
    assert_eq!(set_fan_speed(1, 250, CLEVO), Ok(IoCommand::SetFanSpeed { fan_id: 1, percent: 100 }));
    assert_eq!(set_fan_speed(0, 42, UNIWILL), Ok(IoCommand::SetFanSpeed { fan_id: 0, percent: 42 }));
    assert_eq!(set_fan_speed(0, 42, IoAccess::Absent), Err(DeviceError::FanControlUnavailable));
    assert_eq!(set_fan_auto(3, IoAccess::Unopenable), Err(DeviceError::IoUnavailable));
    assert_eq!(set_fan_auto(3, CLEVO), Ok(IoCommand::SetFansAuto));
}

#[test]
fn webcam_state_is_on_unless_a_clevo_board_says_otherwise() {
    assert_eq!(get_webcam_state(IoAccess::Absent, None), Ok(true));
    assert_eq!(get_webcam_state(UNIWILL, Some(false)), Ok(true));
    assert_eq!(get_webcam_state(CLEVO, Some(false)), Ok(false));
    assert_eq!(get_webcam_state(CLEVO, None), Ok(true));
    assert_eq!(get_webcam_state(IoAccess::Unopenable, None), Err(DeviceError::IoUnavailable));
    assert_eq!(set_webcam_state(false, CLEVO), Ok(IoCommand::SetWebcam(false)));
    assert_eq!(set_webcam_state(false, IoAccess::Absent), Err(DeviceError::WebcamControlUnavailable));
}

#[test]
fn tdp_profiles_are_addressed_by_position() {
    let profiles = vec!["power_save".to_string(), "enthusiast".to_string(), "overboost".to_string()];
    assert_eq!(set_tdp_profile("overboost", UNIWILL, &profiles), Ok(IoCommand::SetPerformanceProfile(2)));
    assert_eq!(set_tdp_profile("turbo", UNIWILL, &profiles), Err(DeviceError::TdpProfileNotFound));
    assert_eq!(set_tdp_profile("turbo", IoAccess::Absent, &profiles), Err(DeviceError::TdpProfilesUnavailable));
    assert_eq!(get_current_tdp_profile(UNIWILL, &profiles, Some(2)).unwrap(), "enthusiast");
    assert_eq!(get_current_tdp_profile(UNIWILL, &profiles, Some(0)).unwrap(), "power_save");
    assert_eq!(get_current_tdp_profile(UNIWILL, &profiles, Some(9)).unwrap(), "power_save");
    assert_eq!(get_current_tdp_profile(CLEVO, &profiles, Some(3)).unwrap(), "power_save");
    assert_eq!(get_current_tdp_profile(CLEVO, &[], None), Err(DeviceError::NoTdpProfiles));
    assert!(get_tdp_profiles(IoAccess::Absent, Some(profiles.clone())).is_empty());
    assert_eq!(get_tdp_profiles(CLEVO, Some(profiles.clone())), profiles);
    assert!(get_tdp_profiles(CLEVO, None).is_empty());
}

#[test]
fn battery_thresholds_need_the_custom_charge_type() {
    let on = BatterySettings { control_enabled: true, charge_start_threshold: 60, charge_end_threshold: 90 };
    assert_eq!(
        apply_battery_settings(&on, true),
        vec![
            BatteryCommand::CustomChargeType,
            BatteryCommand::StartThreshold(60),
            BatteryCommand::EndThreshold(90)
        ]
    );
    assert_eq!(apply_battery_settings(&BatterySettings::default(), true), vec![BatteryCommand::StandardChargeType]);
    assert!(apply_battery_settings(&on, false).is_empty());
}

#[test]
fn switching_fan_control_off_returns_fans_to_auto() {
    assert_eq!(apply_fan_settings(true, IoAccess::Absent), (FanDaemonUpdate::Unchanged, None));
    assert_eq!(apply_fan_settings(true, CLEVO), (FanDaemonUpdate::Enable, None));
    assert_eq!(apply_fan_settings(false, CLEVO), (FanDaemonUpdate::Disable, Some(Ok(IoCommand::SetFansAuto))));
}

#[test]
fn nvml_commands() {
    assert_eq!(set_gpu_power_limit(0, 115), NvmlCommand::SetPowerLimit { device: 0, milliwatts: 115_000 });
    assert_eq!(reset_gpu_clocks(1), NvmlCommand::ResetLockedClocks { device: 1 });
    assert_eq!(
        set_gpu_locked_clocks(0, 300, 1800),
        NvmlCommand::SetLockedClocks { device: 0, min_mhz: 300, max_mhz: 1800 }
    );
    assert_eq!(set_gpu_fan_speed(0, 1, 70), NvmlCommand::SetFanSpeed { device: 0, fan: 1, percent: 70 });
    assert_eq!(set_gpu_fan_auto(0, 1), NvmlCommand::SetDefaultFanSpeed { device: 0, fan: 1 });
    let fans = [
        NvidiaFanSettings { device_index: 0, fan_id: 0, speed: 55, manual: true },
        NvidiaFanSettings { device_index: 0, fan_id: 1, speed: 55, manual: false },
    ];
    assert_eq!(
        nvidia_fan_commands(&fans),
        vec![
            NvmlCommand::SetFanSpeed { device: 0, fan: 0, percent: 55 },
            NvmlCommand::SetDefaultFanSpeed { device: 0, fan: 1 }
        ]
    );
}

#[test]
fn clock_ranges_never_wake_a_suspended_gpu_and_never_go_negative() {
    assert_eq!(gpu_clock_range_source(Some((210, 2100)), true), ClockRangeSource::Cached(210, 2100));
    assert_eq!(gpu_clock_range_source(None, true), ClockRangeSource::Refuse);
    assert_eq!(gpu_clock_range_source(None, false), ClockRangeSource::Query);
    assert_eq!(get_gpu_clock_ranges((210, 2100), 150), (360, 2250));
    assert_eq!(get_gpu_clock_ranges((210, 2100), -300), (0, 1800));
    assert_eq!(get_gpu_clock_ranges((210, u32::MAX), 10), (220, u32::MAX));
}

#[test]
fn offset_limits_come_from_the_cache_first_and_never_wake_the_gpu() {
    assert_eq!(offset_limits_source(Some((-200, 1000)), true), OffsetLimitsSource::Cached(-200, 1000));
    assert_eq!(offset_limits_source(None, true), OffsetLimitsSource::Refuse);
    assert_eq!(offset_limits_source(None, false), OffsetLimitsSource::Query);
}

#[test]
fn clock_span_of_listed_clocks() {
    assert_eq!(clock_span(&vec![1500, 210, 2100, 900]), Some((210, 2100)));
    assert_eq!(clock_span(&vec![705]), Some((705, 705)));
    assert_eq!(clock_span(&Vec::new()), None);
}

#[test]
fn interface_summary() {
    assert_eq!(hardware_interface_summary(Some(HardwareInterface::Uniwill), 2), "Interface: Uniwill, Fans: 2");
    assert_eq!(hardware_interface_summary(Some(HardwareInterface::Unknown), 0), "Interface: None, Fans: 0");
    assert_eq!(hardware_interface_summary(None, 3), "None");
}

#[test]
fn memory_clock_span_over_performance_states() {
    assert_eq!(pstate_clock_span(&vec![(405, 7001), (810, 6000), (405, 405)]), Some((405, 7001)));
    assert_eq!(pstate_clock_span(&vec![]), None);
    assert_eq!(pstate_clock_span(&vec![(u32::MAX, 100)]), None);
    assert_eq!(pstate_clock_span(&vec![(u32::MAX, 9000), (300, 500)]), Some((300, 9000)));
}

#[test]
fn clock_range_answer_from_cache_refusal_or_query() {
    assert_eq!(clock_range_answer(Some((210, 2100)), true, 150), ClockRangeAnswer::Range(360, 2250));
    assert_eq!(clock_range_answer(Some((210, 2100)), false, -300), ClockRangeAnswer::Range(0, 1800));
    assert_eq!(clock_range_answer(None, true, 0), ClockRangeAnswer::Refuse);
    assert_eq!(clock_range_answer(None, false, 0), ClockRangeAnswer::Query);
}
