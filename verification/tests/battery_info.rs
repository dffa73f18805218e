use lapsphere::battery_info::{battery_reading, BatteryError, BatteryFiles};

fn s(v: &str) -> Option<String> {
    Some(v.to_string())
}

fn files() -> BatteryFiles {
    BatteryFiles {
        status: s("Discharging\n"),
        charge_full: s("4200000\n"),
        energy_full: None,
        charge_full_design: s("5000000\n"),
        energy_full_design: None,
        voltage_now: s("11870000\n"),
        current_now: s("-1534999\n"),
        capacity: s("87\n"),
        manufacturer: s("OEM\n"),
        model_name: s(" standard \n"),
        charge_control_start_threshold: s("40\n"),
        charge_control_end_threshold: s("80\n"),
    }
}

#[test]
fn battery_figures_in_milli_units() {
    let b = battery_reading(&files()).unwrap();
    assert_eq!(b.status, "Discharging");
    assert_eq!(b.voltage_mv, 11870);
    assert_eq!(b.current_ma, -1534);
    assert_eq!(b.charge_percent, 87);
    assert_eq!(b.capacity_mah, 4200);
    assert_eq!(b.full, Some(4200000));
    assert_eq!(b.full_design, Some(5000000));
    assert_eq!(b.manufacturer, "OEM");
    assert_eq!(b.model, "standard");
    assert_eq!(b.charge_start_threshold, Some(40));
    assert_eq!(b.charge_end_threshold, Some(80));
}

#[test]
fn battery_energy_files_stand_in_for_charge_files() {
    let mut f = files();
    f.charge_full = None;
    f.energy_full = s("52000000");
    f.charge_full_design = s("garbage");
    f.energy_full_design = s("60000000");
    f.status = None;
    f.charge_control_start_threshold = s("300");
    f.charge_control_end_threshold = None;
    let b = battery_reading(&f).unwrap();
    assert_eq!(b.full, Some(52000000));
    assert_eq!(b.capacity_mah, 52000);
    assert_eq!(b.full_design, Some(60000000));
    assert_eq!(b.status, "Unknown");
    assert_eq!(b.charge_start_threshold, Some(44));
    assert_eq!(b.charge_end_threshold, None);
    f.energy_full = None;
    assert_eq!(battery_reading(&f).unwrap().capacity_mah, 0);
}

#[test]
fn battery_missing_files_are_reported_in_order() {
    let mut f = files();
    f.model_name = None;
    assert_eq!(battery_reading(&f).unwrap_err(), BatteryError::ModelName);
    f.manufacturer = None;
    assert_eq!(battery_reading(&f).unwrap_err(), BatteryError::Manufacturer);
    f.capacity = s("x");
    assert_eq!(battery_reading(&f).unwrap_err(), BatteryError::Capacity);
    f.current_now = s("");
    assert_eq!(battery_reading(&f).unwrap_err(), BatteryError::CurrentNow);
    f.voltage_now = s("-5");
    assert_eq!(battery_reading(&f).unwrap_err(), BatteryError::VoltageNow);
}

#[test]
fn battery_current_rounds_toward_zero() {
    let mut f = files();
    f.current_now = s("1999");
    assert_eq!(battery_reading(&f).unwrap().current_ma, 1);
    f.current_now = s("-999");
    assert_eq!(battery_reading(&f).unwrap().current_ma, 0);
    f.current_now = s("-9223372036854775808");
    assert_eq!(battery_reading(&f).unwrap().current_ma, -9223372036854775);
}
