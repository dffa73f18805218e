use lapsphere::sysfs_guard::{
    brightness_base, guard_sysfs_write, is_allowed_governor, is_allowed_sysfs_path, matches_template,
    parse_u64, GuardError,
};

#[test]
fn absolute_paths_match_sysfs_allowlist() {
    assert!(is_allowed_sysfs_path(
        "/sys/devices/system/cpu/cpu0/cpufreq/scaling_governor"
    ));
    assert!(is_allowed_sysfs_path(
        "/sys/devices/system/cpu/cpu7/cpufreq/scaling_max_freq"
    ));
    assert!(is_allowed_sysfs_path("/sys/devices/system/cpu/cpufreq/boost"));
    assert!(is_allowed_sysfs_path("/sys/class/leds/kbd_backlight/mode"));

    assert!(!is_allowed_sysfs_path(
        "/sys/devices/system/cpu/cpu0/cpufreq/scaling_cur_freq"
    ));
    assert!(!is_allowed_sysfs_path("/sys/class/hwmon/hwmon0/temp1_input"));
}

#[test]
fn a_wildcard_spans_exactly_one_non_empty_segment() {
    assert!(matches_template("/a/x/c", "/a/*/c"));
    assert!(!matches_template("/a/x/y/c", "/a/*/c"));
    assert!(!matches_template("/a/c", "/a/*/c"));
    assert!(matches_template("//a//b/", "/a/b"));
}

#[test]
fn governors_outside_the_allowlist_are_refused() {
    let p = "/sys/devices/system/cpu/cpu0/cpufreq/scaling_governor";
    assert_eq!(guard_sysfs_write(p, "performance", None, None), Ok(()));
    assert!(is_allowed_governor("schedutil"));
    assert!(!is_allowed_governor("invalid-governor-token"));
    assert_eq!(
        guard_sysfs_write(p, "invalid-governor-token", None, None),
        Err(GuardError::GovernorRejected)
    );
    assert_eq!(
        guard_sysfs_write("/sys/class/hwmon/hwmon0/pwm1", "255", None, None),
        Err(GuardError::NotAllowlisted)
    );
}

#[test]
fn frequencies_must_lie_in_the_hardware_window() {
    let p = "/sys/devices/system/cpu/cpu3/cpufreq/scaling_max_freq";
    let hw = Some((400_000, 4_800_000));
    assert_eq!(guard_sysfs_write(p, "4800000", hw, None), Ok(()));
    assert_eq!(
        guard_sysfs_write(p, "4800001", hw, None),
        Err(GuardError::FrequencyOutOfRange { value: 4_800_001, min: 400_000, max: 4_800_000 })
    );
    assert_eq!(guard_sysfs_write(p, "fast", hw, None), Err(GuardError::FrequencyNotNumeric));
    // Unreadable hardware limits skip the range check.
    assert_eq!(guard_sysfs_write(p, "99999999", None, None), Ok(()));
}

#[test]
fn toggles_statuses_and_led_values_keep_to_their_vocabulary() {
    assert_eq!(
        guard_sysfs_write("/sys/devices/system/cpu/cpufreq/boost", "2", None, None),
        Err(GuardError::BoolToggleRejected)
    );
    assert_eq!(
        guard_sysfs_write("/sys/devices/system/cpu/intel_pstate/status", "guided", None, None),
        Err(GuardError::IntelPstateRejected)
    );
    assert_eq!(
        guard_sysfs_write("/sys/devices/system/cpu/amd_pstate/status", "guided", None, None),
        Ok(())
    );
    assert_eq!(
        guard_sysfs_write("/sys/devices/system/cpu/smt/control", "forceoff", None, None),
        Err(GuardError::SmtRejected)
    );
    assert_eq!(
        guard_sysfs_write("/sys/class/leds/kbd_backlight/speed", "256", None, None),
        Err(GuardError::LedValueRejected)
    );
    assert_eq!(guard_sysfs_write("/sys/class/leds/kbd_backlight/speed", "255", None, None), Ok(()));
}

#[test]
fn brightness_is_bounded_by_the_reported_maximum() {
    let p = "/sys/class/backlight/intel_backlight/brightness";
    assert_eq!(guard_sysfs_write(p, "19393", None, Some(19393)), Ok(()));
    assert_eq!(
        guard_sysfs_write(p, "19394", None, Some(19393)),
        Err(GuardError::BrightnessTooHigh { brightness: 19394, max_brightness: 19393 })
    );
    assert_eq!(brightness_base(p).as_deref(), Some("/sys/class/backlight/intel_backlight"));
    assert_eq!(
        brightness_base("/sys/class/backlight/acpi_video0/actual_brightness").as_deref(),
        Some("/sys/class/backlight/acpi_video0")
    );
}

#[test]
fn numbers_parse_with_surrounding_whitespace() {
    assert_eq!(parse_u64(" 1200000\n"), Some(1_200_000));
    assert_eq!(parse_u64("-1"), None);
    assert_eq!(parse_u64("18446744073709551616"), None);
}
