use lapsphere::keyboard::{
    apply_keyboard_settings, preview_keyboard_settings, HardwareInterface, KbdAction, KbdError,
    KeyboardPlan, LedState, RgbKeyboardControl,
};
use lapsphere::sysfs_guard::GuardError;
use lapsphere::types::{KeyboardMode, KeyboardSettings, ZoneColor};

fn led(max: Option<u32>) -> LedState {
    LedState { has_multi_intensity: true, has_mode: true, has_speed: true, max_brightness: max }
}

fn steps(p: &KeyboardPlan) -> Vec<String> {
    p.actions
        .iter()
        .map(|a| match a {
            KbdAction::ClevoMode(m) => format!("clevo-mode {:#x}", m),
            KbdAction::ClevoColor { zone, r, g, b } => format!("clevo-color {} {} {} {}", zone, r, g, b),
            KbdAction::ClevoBrightness(v) => format!("clevo-brightness {}", v),
            KbdAction::Write { write, best_effort } => {
                format!("{}{} = {}", if *best_effort { "~" } else { "" }, write.path, write.contents)
            }
        })
        .collect()
}

#[test]
fn no_backlight_and_no_driver_is_unavailable() {
    assert!(matches!(RgbKeyboardControl::new(vec![], None), Err(KbdError::Unavailable)));
    assert!(RgbKeyboardControl::new(vec![], Some(HardwareInterface::Clevo)).is_ok());
}

#[test]
fn single_color_colors_every_zone_then_sets_brightness() {
    let kbd = RgbKeyboardControl::new(vec!["/sys/class/leds/rgb:kbd_backlight".to_string()], None).unwrap();
    let plan = kbd.set_mode(&KeyboardMode::SingleColor { r: 255, g: 0, b: 16, brightness: 50 }, &[led(Some(200))]);
    assert!(plan.outcome.is_ok());
    assert_eq!(
        steps(&plan),
        vec![
            "~/sys/class/leds/rgb:kbd_backlight/multi_intensity = 255 0 16".to_string(),
            "/sys/class/leds/rgb:kbd_backlight/brightness = 100".to_string(),
        ]
    );
}

#[test]
fn clevo_boards_get_driver_commands_for_three_zones() {
    let kbd = RgbKeyboardControl::new(vec![], Some(HardwareInterface::Clevo)).unwrap();
    let plan = kbd.set_mode(&KeyboardMode::SingleColor { r: 1, g: 2, b: 3, brightness: 40 }, &[]);
    assert!(plan.outcome.is_ok());
    assert_eq!(
        steps(&plan),
        vec![
            "clevo-mode 0x0".to_string(),
            "clevo-color 0 1 2 3".to_string(),
            "clevo-color 1 1 2 3".to_string(),
            "clevo-color 2 1 2 3".to_string(),
            "clevo-brightness 40".to_string(),
        ]
    );
}

#[test]
fn breathing_writes_effect_and_speed_before_colors() {
    let kbd = RgbKeyboardControl::new(vec!["/sys/class/leds/kbd".to_string()], Some(HardwareInterface::Uniwill)).unwrap();
    let plan = kbd.set_mode(
        &KeyboardMode::Breathe { r: 9, g: 8, b: 7, brightness: 100, speed: 3 },
        &[led(None)],
    );
    assert!(plan.outcome.is_ok());
    assert_eq!(
        steps(&plan),
        vec![
            "/sys/class/leds/kbd/mode = 1".to_string(),
            "/sys/class/leds/kbd/speed = 3".to_string(),
            "~/sys/class/leds/kbd/multi_intensity = 9 8 7".to_string(),
            "/sys/class/leds/kbd/brightness = 255".to_string(),
        ]
    );
}

#[test]
fn a_refused_effect_write_stops_the_mode() {
    // Platform LED directories are not on the sysfs allowlist.
    let kbd = RgbKeyboardControl::new(
        vec!["/sys/devices/platform/tuxedo_keyboard/leds/left:kbd_backlight".to_string()],
        None,
    )
    .unwrap();
    let plan = kbd.set_mode(&KeyboardMode::Wave { brightness: 10, speed: 1 }, &[led(None)]);
    assert!(plan.actions.is_empty());
    assert_eq!(plan.outcome, Err(KbdError::Guard(GuardError::NotAllowlisted)));
}

#[test]
fn a_brightness_above_100_percent_is_refused_by_the_guard() {
    let kbd = RgbKeyboardControl::new(vec!["/sys/class/leds/kbd".to_string()], None).unwrap();
    let plan = kbd.set_brightness(150, &[led(Some(100))]);
    assert_eq!(
        plan.outcome,
        Err(KbdError::Guard(GuardError::BrightnessTooHigh { brightness: 150, max_brightness: 100 }))
    );
}

#[test]
fn zone_errors_are_reported_by_set_zone_color() {
    let kbd = RgbKeyboardControl::new(vec!["/sys/class/leds/kbd".to_string()], None).unwrap();
    let no_rgb = LedState { has_multi_intensity: false, has_mode: false, has_speed: false, max_brightness: None };
    assert_eq!(kbd.set_zone_color(0, 1, 2, 3, &[no_rgb]).outcome, Err(KbdError::RgbUnavailable(0)));
    assert_eq!(kbd.set_zone_color(5, 1, 2, 3, &[no_rgb]).outcome, Err(KbdError::InvalidZone(5)));
}

#[test]
fn per_zone_colors_follow_the_zone_order() {
    let kbd = RgbKeyboardControl::new(
        vec!["/sys/class/leds/a".to_string(), "/sys/class/leds/b".to_string()],
        None,
    )
    .unwrap();
    let zones = vec![ZoneColor { r: 1, g: 1, b: 1 }, ZoneColor { r: 2, g: 2, b: 2 }, ZoneColor { r: 3, g: 3, b: 3 }];
    let plan = kbd.set_mode(&KeyboardMode::MultipleZones { zones, brightness: 0 }, &[led(None), led(None)]);
    assert!(plan.outcome.is_ok());
    assert_eq!(
        steps(&plan),
        vec![
            "~/sys/class/leds/a/multi_intensity = 1 1 1".to_string(),
            "~/sys/class/leds/b/multi_intensity = 2 2 2".to_string(),
            "/sys/class/leds/a/brightness = 0".to_string(),
            "/sys/class/leds/b/brightness = 0".to_string(),
        ]
    );
}

#[test]
fn disabled_control_resets_to_white_and_never_fails() {
    let settings = KeyboardSettings::default();
    assert!(apply_keyboard_settings(&settings, None, &[]).outcome.is_ok());
    let kbd = RgbKeyboardControl::new(vec!["/sys/class/leds/kbd".to_string()], None).unwrap();
    let plan = apply_keyboard_settings(&settings, Some(&kbd), &[led(Some(10))]);
    assert!(plan.outcome.is_ok());
    assert_eq!(
        steps(&plan),
        vec![
            "~/sys/class/leds/kbd/multi_intensity = 255 255 255".to_string(),
            "/sys/class/leds/kbd/brightness = 5".to_string(),
        ]
    );
    let enabled = KeyboardSettings { control_enabled: true, ..KeyboardSettings::default() };
    assert_eq!(apply_keyboard_settings(&enabled, None, &[]).outcome, Err(KbdError::Unavailable));
    assert_eq!(preview_keyboard_settings(&settings, None, &[]).outcome, Err(KbdError::Unavailable));
}
