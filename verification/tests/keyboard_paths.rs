use lapsphere::keyboard_paths::{keyboard_backlight_paths, sort_texts, KeyboardLedPaths};

fn none() -> KeyboardLedPaths {
    KeyboardLedPaths { vendor_leds: false, left: false, center: false, right: false, rgb: false, class_leds: None }
}

#[test]
fn vendor_zones_come_first_left_to_right() {
    let mut f = none();
    f.vendor_leds = true;
    f.right = true;
    f.left = true;
    f.rgb = true;
    f.class_leds = Some(vec!["rgb:kbd_backlight".to_string()]);
    assert_eq!(
        keyboard_backlight_paths(&f),
        vec![
            "/sys/devices/platform/tuxedo_keyboard/leds/left:kbd_backlight".to_string(),
            "/sys/devices/platform/tuxedo_keyboard/leds/right:kbd_backlight".to_string(),
        ]
    );
}

#[test]
fn single_vendor_zone() {
    let mut f = none();
    f.vendor_leds = true;
    f.rgb = true;
    assert_eq!(keyboard_backlight_paths(&f), vec!["/sys/devices/platform/tuxedo_keyboard/leds/rgb:kbd_backlight".to_string()]);
}

#[test]
fn class_leds_are_sorted_by_name() {
    let mut f = none();
    f.vendor_leds = true;
    f.class_leds = Some(vec![
        "rgb:kbd_backlight_2".to_string(),
        "input3::capslock".to_string(),
        "rgb:kbd_backlight".to_string(),
        "rgb:kbd_backlight_1".to_string(),
    ]);
    assert_eq!(
        keyboard_backlight_paths(&f),
        vec![
            "/sys/class/leds/rgb:kbd_backlight".to_string(),
            "/sys/class/leds/rgb:kbd_backlight_1".to_string(),
            "/sys/class/leds/rgb:kbd_backlight_2".to_string(),
        ]
    );
    assert!(keyboard_backlight_paths(&none()).is_empty());
}

#[test]
fn texts_sort_like_strings() {
    let v = vec!["b".to_string(), "B".to_string(), "ab".to_string(), "a".to_string(), "é".to_string(), "z".to_string()];
    let mut expected = v.clone();
    expected.sort();
    assert_eq!(sort_texts(v), expected);
}
