use lapsphere::wifi_link::{iw_link_readable, parse_iw_link, parse_iw_link_checked};

const LINK: &str = "Connected to 11:22:33:44:55:66 (on wlp2s0)\n\tSSID: Home Net\n\tfreq: 5180\n\tRX: 1234 bytes (10 packets)\n\tTX: 99 bytes (3 packets)\n\tsignal: -56 dBm\n\trx bitrate: 866.7 MBit/s VHT-MCS 9 80MHz short GI VHT-NSS 2\n\ttx bitrate: 650.0 MBit/s\n";

#[test]
fn iw_link_reports_every_field() {
    let l = parse_iw_link(LINK);
    assert_eq!(l.ssid, Some("Home Net".to_string()));
    assert_eq!(l.freq, Some(5180));
    assert_eq!(l.rx_bytes, Some(1234));
    assert_eq!(l.tx_bytes, Some(99));
    assert_eq!(l.signal, Some(-56));
    assert_eq!(
        l.rx_bitrate_line,
        Some("rx bitrate: 866.7 MBit/s VHT-MCS 9 80MHz short GI VHT-NSS 2".to_string())
    );
    assert_eq!(l.tx_bitrate_line, Some("tx bitrate: 650.0 MBit/s".to_string()));
}

#[test]
fn iw_link_when_not_connected() {
    let l = parse_iw_link("Not connected.\n");
    assert_eq!(l.ssid, None);
    assert_eq!(l.freq, None);
    assert_eq!(l.rx_bitrate_line, None);
    assert_eq!(l.tx_bitrate_line, None);
    assert_eq!(l.rx_bytes, None);
    assert_eq!(l.tx_bytes, None);
    assert_eq!(l.signal, None);
}

#[test]
fn iw_link_keys_are_found_in_any_case_and_later_lines_win() {
    let l = parse_iw_link("ssid: \"first\"\nSsId: second\nFREQ: x\nSignal: -70 dBm\nsignal: -40\n");
    assert_eq!(l.ssid, Some("second".to_string()));
    assert_eq!(l.freq, None);
    assert_eq!(l.signal, Some(-40));
}

#[test]
fn iw_link_hidden_network_has_no_name() {
    let l = parse_iw_link("\tSSID: off/any\n");
    assert_eq!(l.ssid, None);
    let l = parse_iw_link("\tSSID: \"\"\n");
    assert_eq!(l.ssid, None);
}

#[test]
fn iw_link_line_whose_lowercase_is_longer_cannot_be_cut() {
    // 'İ' takes two bytes but its lower case takes three, so the byte
    // position after "ssid:" in the lower-cased line lies past the end of
    // the line itself.
    assert!(!iw_link_readable("\tİssid:\n"));
    assert!(parse_iw_link_checked("\tİssid:\n").is_none());
    assert!(iw_link_readable(LINK));
    let l = parse_iw_link_checked(LINK).unwrap();
    assert_eq!(l.freq, Some(5180));
}

#[test]
fn iw_link_lowercasing_that_keeps_byte_length_is_cut_normally() {
    let l = parse_iw_link_checked("Ä SSID: Café\n").unwrap();
    assert_eq!(l.ssid, Some("Café".to_string()));
}
