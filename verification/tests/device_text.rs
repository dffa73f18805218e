use lapsphere::device_text::{normalize_ssid, normalize_uid, parse_driver_info};

#[test]
fn test_normalize_ssid() {
    assert_eq!(normalize_ssid(" \"Generic-SSID\" "), Some("Generic-SSID".to_string()));
    assert_eq!(normalize_ssid(" Random SSID "), Some("Random SSID".to_string()));
    assert_eq!(normalize_ssid(" off/any "), None);
    assert_eq!(normalize_ssid(""), None);
}

#[test]
fn test_ethtool_parsing() {
    let output = "driver: iwlwifi\nversion: 6.8.0-90-generic\nfirmware-version: 77.b405f9d4.0 cc-a0-77.ucode\nbus-info: 0000:02:00.0\nsupports-statistics: yes\nsupports-test: yes\nsupports-eeprom-access: no\nsupports-register-dump: yes\nsupports-priv-flags: no";

    let mut driver_version = None;
    let mut firmware_version = None;

    for line in output.lines() {
        let trimmed = line.trim();
        let parts: Vec<&str> = trimmed.splitn(2, ':').collect();
        if parts.len() == 2 {
            let key = parts[0].trim().to_lowercase();
            let value = parts[1].trim();
            if key == "version" {
                driver_version = normalize_ssid(value);
            } else if key == "firmware-version" {
                firmware_version = normalize_ssid(value);
            }
        }
    }

    assert_eq!(driver_version, Some("6.8.0-90-generic".to_string()));
    assert_eq!(firmware_version, Some("77.b405f9d4.0 cc-a0-77.ucode".to_string()));
}

#[test]
fn driver_info_parser_reads_the_same_output() {
    let output = "driver: iwlwifi\nversion: 6.8.0-90-generic\nfirmware-version: 77.b405f9d4.0 cc-a0-77.ucode\nbus-info: 0000:02:00.0\nsupports-statistics: yes\nsupports-test: yes\nsupports-eeprom-access: no\nsupports-register-dump: yes\nsupports-priv-flags: no";
    let (driver, firmware) = parse_driver_info(output);
    assert_eq!(driver, Some("6.8.0-90-generic".to_string()));
    assert_eq!(firmware, Some("77.b405f9d4.0 cc-a0-77.ucode".to_string()));
}

#[test]
fn driver_info_keys_ignore_case_and_the_last_line_wins() {
    let (driver, firmware) = parse_driver_info("  VERSION : 1.0\r\nversion: \"2.0\"\nFirmware-Version: off/any\n");
    assert_eq!(driver, Some("2.0".to_string()));
    assert_eq!(firmware, None);
    assert_eq!(parse_driver_info(""), (None, None));
    assert_eq!(parse_driver_info("no colon here"), (None, None));
}

#[test]
fn mac_like_uids_lose_their_separators_and_case() {
    assert_eq!(normalize_uid(" AA:BB:CC:DD:EE:FF ".to_string()), "aabbccddeeff");
    assert_eq!(normalize_uid("aa-bb-cc-dd-ee-ff".to_string()), "aabbccddeeff");
    assert_eq!(normalize_uid("A1B2C3D4E5F6".to_string()), "a1b2c3d4e5f6");
    assert_eq!(normalize_uid(" usb-0000:00:14.0-2 ".to_string()), "usb-0000:00:14.0-2");
    assert_eq!(normalize_uid("G1B2C3D4E5F6".to_string()), "G1B2C3D4E5F6");
}
