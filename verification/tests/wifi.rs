use lapsphere::wifi::wireless_signal;
use lapsphere::wifi::parse_lspci;
use lapsphere::wifi::choose_byte_counters;
use lapsphere::wifi::{essid_from_iwconfig, parse_iw_info};

#[test]
fn iw_info_channel_and_width() {
    let out = "Interface wlp2s0\n\tifindex 3\n\ttype managed\n\tchannel 36 (5180 MHz), width: 80 MHz, center1: 5210 MHz\n\ttxpower 22.00 dBm\n";
    assert_eq!(parse_iw_info(out), (Some(36), Some(80)));
    assert_eq!(parse_iw_info("Interface wlp2s0\n\ttype managed\n"), (None, None));
    assert_eq!(parse_iw_info("\tchannel x (2412 MHz), width: 20 MHz\n"), (None, Some(20)));
}

#[test]
fn iwconfig_essid() {
    let out = "wlp2s0    IEEE 802.11  ESSID:\"Home Net\"  \n          Mode:Managed  Frequency:5.18 GHz\n";
    assert_eq!(essid_from_iwconfig(out), Some("Home Net".to_string()));
    assert_eq!(essid_from_iwconfig("wlp2s0    IEEE 802.11  ESSID:off/any\n"), None);
    assert_eq!(essid_from_iwconfig("lo        no wireless extensions.\n"), None);
}

#[test]
fn proc_net_wireless_signal() {
    let w = "Inter-| sta-|   Quality        |   Discarded packets\n face | tus | link level noise |  nwid  crypt\nwlp2s0: 0000   54.  -56.  -256        0      0\n";
    assert_eq!(wireless_signal(w, "wlp2s0"), Some(-56));
    assert_eq!(wireless_signal(w, "wlan0"), None);
    assert_eq!(wireless_signal("wlp2s0: 0000 54. -56.\n", "wlp2s0"), None);
}

#[test]
fn lspci_controller_and_subsystem() {
    let out = "02:00.0 Network controller: Intel Corporation Wi-Fi 6E(802.11ax) AX211 (rev 1a)\n\tSubsystem: Intel Corporation Wi-Fi 6E AX211 160MHz\n\tKernel driver in use: iwlwifi\n";
    assert_eq!(
        parse_lspci(out),
        (
            Some("Intel Corporation Wi-Fi 6E(802.11ax) AX211 (rev 1a)".to_string()),
            Some("Intel Corporation Wi-Fi 6E AX211 160MHz".to_string())
        )
    );
    assert_eq!(parse_lspci(""), (None, None));
}

#[test]
fn byte_counter_priority() {
    assert_eq!(choose_byte_counters(Some(10), Some(20), Some((1, 2))), (10, 20));
    assert_eq!(choose_byte_counters(Some(10), None, Some((1, 2))), (1, 2));
    assert_eq!(choose_byte_counters(None, None, None), (0, 0));
}
