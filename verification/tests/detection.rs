use lapsphere::detection::{
    dmi_field, is_ite_keyboard_uevent, keyboard_capabilities, system_info_from, tuxedo_kernel_modules,
    DmiFiles, KeyboardLedFiles, LedEntry,
};
use lapsphere::types::KeyboardType;

fn no_leds() -> KeyboardLedFiles {
    KeyboardLedFiles {
        vendor_leds: false,
        vendor_left: false,
        vendor_rgb: false,
        vendor_center: false,
        vendor_right: false,
        vendor_left_mode: false,
        vendor_rgb_mode: false,
        class_leds: None,
        ite_keyboard: false,
    }
}

fn led(name: &str, has_mode: bool) -> LedEntry {
    LedEntry { name: name.to_string(), has_mode }
}

#[test]
fn modules_list_names_the_vendor_modules() {
    let modules = "tuxedo_keyboard 49152 0 - Live 0x0\nnvidia 100 2 - Live 0x0\ntuxedo_io 16384 0 - Live 0x0\n";
    assert_eq!(tuxedo_kernel_modules(Some(modules)), "tuxedo_keyboard, tuxedo_io");
    assert_eq!(tuxedo_kernel_modules(Some("nvidia 100 2 - Live 0x0\n")), "Not available");
    assert_eq!(tuxedo_kernel_modules(None), "Not available");
}

#[test]
fn dmi_fields_are_trimmed_or_unknown() {
    assert_eq!(dmi_field(Some("  XMG FUSION 15\n")), "XMG FUSION 15");
    assert_eq!(dmi_field(None), "Unknown");
}

#[test]
fn device_tree_model_replaces_an_unknown_product() {
    let files = DmiFiles {
        product_name: Some("\n".to_string()),
        device_tree_model: Some("Pine64 Board\0".to_string()),
        product_sku: None,
        sys_vendor: Some("TUXEDO\n".to_string()),
        board_name: Some("NL5xRU".to_string()),
        bios_version: Some(" 1.07.09 ".to_string()),
        modules: None,
    };
    let info = system_info_from(&files);
    assert_eq!(info.product_name, "Pine64 Board");
    assert_eq!(info.product_sku, "Unknown");
    assert_eq!(info.manufacturer, "TUXEDO");
    assert_eq!(info.board_name, "NL5xRU");
    assert_eq!(info.bios_version, "1.07.09");
    assert_eq!(info.kernel_modules, "Not available");
    let named = DmiFiles { product_name: Some("Pulse 15".to_string()), ..files };
    assert_eq!(system_info_from(&named).product_name, "Pulse 15");
}

#[test]
fn vendor_three_zone_keyboard() {
    let mut f = no_leds();
    f.vendor_leds = true;
    f.vendor_left = true;
    f.vendor_center = true;
    f.vendor_right = true;
    f.vendor_left_mode = true;
    let c = keyboard_capabilities(&f);
    assert_eq!(c.keyboard_type, KeyboardType::ThreeZoneRGB);
    assert_eq!(c.num_zones, 3);
    assert!(c.supports_brightness && c.supports_color && c.supports_effects);
}

#[test]
fn vendor_single_zone_keyboard_uses_the_rgb_mode_file() {
    let mut f = no_leds();
    f.vendor_leds = true;
    f.vendor_rgb = true;
    f.vendor_left_mode = true;
    let c = keyboard_capabilities(&f);
    assert_eq!(c.keyboard_type, KeyboardType::SingleZoneRGB);
    assert_eq!(c.num_zones, 1);
    assert!(!c.supports_effects);
}

#[test]
fn class_leds_white_and_rgb() {
    let mut f = no_leds();
    f.class_leds = Some(vec![led("input3::capslock", false), led("white:kbd_backlight", true)]);
    let c = keyboard_capabilities(&f);
    assert_eq!(c.keyboard_type, KeyboardType::WhiteOnly);
    assert_eq!(c.num_zones, 1);
    assert!(c.supports_brightness && !c.supports_color && !c.supports_effects);

    f.class_leds = Some(vec![
        led("rgb:kbd_backlight", true),
        led("rgb:kbd_backlight_1", false),
        led("rgb:kbd_backlight_2", false),
        led("rgb:kbd_backlight_3", false),
    ]);
    let c = keyboard_capabilities(&f);
    assert_eq!(c.keyboard_type, KeyboardType::FourZoneRGB);
    assert_eq!(c.num_zones, 4);
    assert!(c.supports_color && c.supports_effects);

    f.class_leds = Some(vec![led("tuxedo:kbd_backlight", false), led("tuxedo:kbd_backlight_1", false)]);
    let c = keyboard_capabilities(&f);
    assert_eq!(c.keyboard_type, KeyboardType::SingleZoneRGB);
    assert_eq!(c.num_zones, 2);
}

#[test]
fn many_zones_or_an_ite_controller_is_per_key() {
    let mut f = no_leds();
    let leds: Vec<LedEntry> = (0..12).map(|i| led(&format!("rgb:kbd_backlight_{}", i), false)).collect();
    f.class_leds = Some(leds);
    let c = keyboard_capabilities(&f);
    assert_eq!(c.keyboard_type, KeyboardType::PerKeyRGB);
    assert_eq!(c.num_zones, 12);

    let mut g = no_leds();
    g.ite_keyboard = true;
    let c = keyboard_capabilities(&g);
    assert_eq!(c.keyboard_type, KeyboardType::PerKeyRGB);
    assert_eq!(c.num_zones, 0);
    assert!(c.supports_brightness && c.supports_color);

    assert_eq!(keyboard_capabilities(&no_leds()).keyboard_type, KeyboardType::NoBacklight);
}

#[test]
fn ite_uevents() {
    assert!(is_ite_keyboard_uevent("DRIVER=hid-generic\nHID_ID=0003:0000048D:00006004\n"));
    assert!(!is_ite_keyboard_uevent("HID_ID=0003:0000046D:0000C52B\n"));
}
