use lapsphere::cpu_control::ControlError;
use lapsphere::screen::{apply_screen_settings, BacklightFiles};
use lapsphere::sysfs_guard::GuardError;
use lapsphere::types::ScreenSettings;

fn absent() -> BacklightFiles {
    BacklightFiles { brightness: false, actual_brightness: false, max_brightness: None }
}

fn writes(p: &lapsphere::cpu_control::WritePlan) -> Vec<(String, String)> {
    p.writes.iter().map(|w| (w.path.clone(), w.contents.clone())).collect()
}

#[test]
fn system_control_writes_nothing() {
    let s = ScreenSettings { brightness: 80, system_control: true };
    let p = apply_screen_settings(&s, &[absent(), absent(), absent(), absent()]);
    assert!(p.writes.is_empty());
    assert!(p.outcome.is_ok());
}

#[test]
fn first_backlight_gets_the_scaled_level() {
    let s = ScreenSettings { brightness: 50, system_control: false };
    let amd = BacklightFiles { brightness: true, actual_brightness: true, max_brightness: Some("1000\n".to_string()) };
    let acpi = BacklightFiles { brightness: true, actual_brightness: false, max_brightness: None };
    let p = apply_screen_settings(&s, &[absent(), amd, absent(), acpi]);
    assert_eq!(
        writes(&p),
        vec![
            ("/sys/class/backlight/amdgpu_bl0/actual_brightness".to_string(), "500".to_string()),
            ("/sys/class/backlight/amdgpu_bl0/brightness".to_string(), "500".to_string()),
        ]
    );
    assert!(p.outcome.is_ok());
}

#[test]
fn unreadable_maximum_counts_as_255() {
    let s = ScreenSettings { brightness: 40, system_control: false };
    let intel = BacklightFiles { brightness: true, actual_brightness: false, max_brightness: Some("n/a".to_string()) };
    let p = apply_screen_settings(&s, &[intel, absent(), absent(), absent()]);
    assert_eq!(writes(&p), vec![("/sys/class/backlight/intel_backlight/brightness".to_string(), "102".to_string())]);
}

#[test]
fn level_above_the_maximum_is_refused() {
    let s = ScreenSettings { brightness: 200, system_control: false };
    let intel = BacklightFiles { brightness: true, actual_brightness: true, max_brightness: Some("100".to_string()) };
    let p = apply_screen_settings(&s, &[intel, absent(), absent(), absent()]);
    assert!(p.writes.is_empty());
    assert!(matches!(
        p.outcome,
        Err(ControlError::Guard(GuardError::BrightnessTooHigh { brightness: 200, max_brightness: 100 }))
    ));
}

#[test]
fn no_backlight_is_an_error() {
    let s = ScreenSettings { brightness: 40, system_control: false };
    let p = apply_screen_settings(&s, &[absent(), absent(), absent(), absent()]);
    assert!(matches!(p.outcome, Err(ControlError::NoBacklight)));
}
