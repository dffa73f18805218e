use lapsphere::gamepad::{
    battery_reading, connection_type, gamepads_from_devices, is_controller_supply, udev_data_path, udev_entry,
    InputDeviceFiles,
};
use lapsphere::types::{ConnectionType, GamepadStatus, PowerStatus};

fn device(input: &str, name: Option<&str>) -> InputDeviceFiles {
    InputDeviceFiles {
        input_name: input.to_string(),
        path: format!("/sys/devices/virtual/input/{}", input),
        udev_records: Vec::new(),
        name: name.map(|n| n.to_string()),
        uniq: None,
        bustype: None,
        battery_level: None,
        power_status: PowerStatus::Unknown,
    }
}

#[test]
fn udev_path_comes_from_major_and_minor() {
    assert_eq!(
        udev_data_path("MAJOR=13\nMINOR=68\nDEVNAME=input/event4\n"),
        Some("/run/udev/data/c13:68".to_string())
    );
    assert_eq!(udev_data_path("MAJOR=13\r\nMINOR=68\r\n"), Some("/run/udev/data/c13:68".to_string()));
    assert_eq!(udev_data_path("MAJOR=13\nDEVNAME=input/event4\n"), None);
}

#[test]
fn udev_entry_prefers_short_serial_then_serial_then_path() {
    let data = "E:ID_INPUT_JOYSTICK=1\nE:ID_PATH=pci-0000:00:14.0-usb-0:2:1.0\nE:ID_SERIAL=Sony_Controller\n";
    assert_eq!(udev_entry(data), (true, Some("Sony_Controller".to_string())));
    let data = "E:ID_SERIAL=Sony_Controller\nE:ID_SERIAL_SHORT=ABC123\n";
    assert_eq!(udev_entry(data), (false, Some("ABC123".to_string())));
    let data = "E:ID_PATH=platform-i8042-serio-0\n";
    assert_eq!(udev_entry(data), (false, Some("platform-i8042-serio-0".to_string())));
    assert_eq!(udev_entry("E:ID_INPUT_KEY=1\n"), (false, None));
}

#[test]
fn udev_joystick_with_uniq_mac_is_reported_once() {
    let mut pad = device("input20", Some("Wireless Controller\n"));
    pad.udev_records = vec![None, Some("E:ID_INPUT_JOYSTICK=1\nE:ID_SERIAL=pad\n".to_string())];
    pad.uniq = Some("AA:BB:CC:DD:EE:FF\n".to_string());
    pad.bustype = Some("0005\n".to_string());
    pad.battery_level = Some(60);
    pad.power_status = PowerStatus::Discharging;
    let mut again = device("input21", Some("Wireless Controller"));
    again.uniq = Some("aa-bb-cc-dd-ee-ff".to_string());
    let found = gamepads_from_devices(&vec![pad, again]);
    assert_eq!(found.len(), 1);
    assert_eq!(found[0].name, "Wireless Controller");
    assert_eq!(found[0].id, "input20");
    assert_eq!(found[0].uid, "aabbccddeeff");
    assert_eq!(found[0].status, GamepadStatus::Connected);
    assert_eq!(found[0].battery_level, Some(60));
    assert_eq!(found[0].connection_type, ConnectionType::Wireless);
    assert_eq!(found[0].power_status, PowerStatus::Discharging);
}

#[test]
fn touchpad_and_motion_sensor_nodes_are_not_pads() {
    let mut touchpad = device("input22", Some("Wireless Controller Touchpad"));
    touchpad.udev_records = vec![Some("E:ID_INPUT_JOYSTICK=1\n".to_string())];
    let motion = device("input23", Some("Wireless Controller Motion Sensors"));
    let keyboard = device("input24", Some("Gamepad Keyboard"));
    let found = gamepads_from_devices(&vec![touchpad, motion, keyboard]);
    assert!(found.is_empty());
}

#[test]
fn name_heuristic_and_path_fallback() {
    let mut pad = device("input5", Some("Xbox Wireless Controller"));
    pad.bustype = Some("0003".to_string());
    pad.uniq = Some("00:00:00:00:00:00".to_string());
    let found = gamepads_from_devices(&vec![pad]);
    assert_eq!(found.len(), 1);
    assert_eq!(found[0].uid, "/sys/devices/virtual/input/input5");
    assert_eq!(found[0].connection_type, ConnectionType::Wired);
}

#[test]
fn entries_that_are_not_input_devices_or_have_no_name_are_skipped() {
    let mut mouse = device("mouse0", Some("Gamepad"));
    mouse.udev_records = vec![Some("E:ID_INPUT_JOYSTICK=1\n".to_string())];
    let mut nameless = device("input9", None);
    nameless.udev_records = vec![Some("E:ID_INPUT_JOYSTICK=1\n".to_string())];
    assert!(gamepads_from_devices(&vec![mouse, nameless]).is_empty());
}

#[test]
fn bus_types() {
    assert_eq!(connection_type(Some("0003\n")), ConnectionType::Wired);
    assert_eq!(connection_type(Some("5")), ConnectionType::Wireless);
    assert_eq!(connection_type(Some("0019")), ConnectionType::Unknown);
    assert_eq!(connection_type(Some("zz")), ConnectionType::Unknown);
    assert_eq!(connection_type(None), ConnectionType::Unknown);
}

#[test]
fn battery_files() {
    assert_eq!(battery_reading(Some("87\n"), Some("Discharging\n")), (Some(87), PowerStatus::Discharging));
    assert_eq!(battery_reading(Some("100"), Some("FULL")), (Some(100), PowerStatus::Full));
    assert_eq!(battery_reading(Some("300"), Some("Charging")), (None, PowerStatus::Charging));
    assert_eq!(battery_reading(None, Some("Not charging")), (None, PowerStatus::Unknown));
    assert_eq!(battery_reading(None, None), (None, PowerStatus::Unknown));
}

#[test]
fn controller_power_supplies() {
    assert!(is_controller_supply("sony_controller_battery_aa:bb:cc:dd:ee:ff"));
    assert!(is_controller_supply("Gamepad-Battery"));
    assert!(!is_controller_supply("BAT0"));
}
