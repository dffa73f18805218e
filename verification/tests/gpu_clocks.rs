use lapsphere::gpu_clocks::{dpm_active_clock, igpu_frequency};

#[test]
fn active_dpm_level() {
    let sclk = "0: 200Mhz \n1: 1100Mhz *\n2: 2200Mhz \n";
    assert_eq!(dpm_active_clock(sclk), Some(1100));
    assert_eq!(dpm_active_clock("0: 96MHz *\n"), Some(96));
    assert_eq!(dpm_active_clock("0: 200Mhz\n1: 400Mhz\n"), None);
    assert_eq!(dpm_active_clock("0: fastMhz *\n1: 800Mhz *\n"), Some(800));
}

#[test]
fn intel_fallback() {
    assert_eq!(igpu_frequency(None, Some("1300\n")), Some(1300));
    assert_eq!(igpu_frequency(Some("0: 200Mhz\n"), Some("350")), Some(350));
    assert_eq!(igpu_frequency(Some("1: 600Mhz *\n"), Some("350")), Some(600));
    assert_eq!(igpu_frequency(None, None), None);
}
