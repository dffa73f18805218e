//! The battery figures read from a `power_supply` directory: each file is
//! trimmed and parsed, micro-units become milli-units, and a missing
//! mandatory file is reported by name.
use vstd::prelude::*;
use crate::device_text::opt_string_view;
use crate::gpu_clocks::file_u64;
use crate::text::{
    chars_of, parse_i64_chars, parse_signed, parse_unsigned_chars, string_of, trim_ws, trim_ws_chars,
};

verus! {

/// The files of one battery directory as read (`None`: unreadable).
pub struct BatteryFiles {
    pub status: Option<String>,
    pub charge_full: Option<String>,
    pub energy_full: Option<String>,
    pub charge_full_design: Option<String>,
    pub energy_full_design: Option<String>,
    pub voltage_now: Option<String>,
    pub current_now: Option<String>,
    pub capacity: Option<String>,
    pub manufacturer: Option<String>,
    pub model_name: Option<String>,
    pub charge_control_start_threshold: Option<String>,
    pub charge_control_end_threshold: Option<String>,
}

/// The mandatory file that could not be read or parsed.
#[derive(Debug, Clone, Copy, PartialEq, Eq, Structural)]
pub enum BatteryError {
    VoltageNow,
    CurrentNow,
    Capacity,
    Manufacturer,
    ModelName,
}

/// The battery's figures. `full` and `full_design` are the last-full and
/// design capacities (charge, else energy, in the driver's micro-units).
#[derive(Debug)]
pub struct BatteryReading {
    pub status: String,
    pub voltage_mv: u64,
    pub current_ma: i64,
    pub charge_percent: u64,
    pub capacity_mah: u64,
    pub full: Option<u64>,
    pub full_design: Option<u64>,
    pub manufacturer: String,
    pub model: String,
    pub charge_start_threshold: Option<u8>,
    pub charge_end_threshold: Option<u8>,
}

/// A file holding a signed integer (`str::parse::<i64>` of the trimmed text).
pub open spec fn file_i64(content: Option<Seq<char>>) -> Option<i64> {
    match content {
        Some(c) => match parse_signed(trim_ws(c), i64::MIN as int, i64::MAX as int) {
            Some(v) => Some(v as i64),
            None => None,
        },
        None => None,
    }
}

/// A file's trimmed text.
pub open spec fn file_text(content: Option<Seq<char>>) -> Option<Seq<char>> {
    match content {
        Some(c) => Some(trim_ws(c)),
        None => None,
    }
}

/// Integer division rounding toward zero, as Rust's `/` does.
pub open spec fn div_toward_zero(v: int, d: int) -> int {
    if v >= 0 {
        v / d
    } else {
        -((-v) / d)
    }
}

/// The first of the energy or charge file pair that parses.
pub open spec fn either_u64(first: Option<Seq<char>>, second: Option<Seq<char>>) -> Option<u64> {
    match file_u64(first) {
        Some(v) => Some(v),
        None => file_u64(second),
    }
}

/// A threshold as the low byte of its value.
pub open spec fn threshold(content: Option<Seq<char>>) -> Option<u8> {
    match file_u64(content) {
        Some(v) => Some((v % 256) as u8),
        None => None,
    }
}

/// The first mandatory file, in the order voltage, current, capacity,
/// manufacturer, model, that cannot be read.
pub open spec fn first_missing(f: BatteryFiles) -> Option<BatteryError> {
    if file_u64(opt_string_view(f.voltage_now)) is None {
        Some(BatteryError::VoltageNow)
    } else if file_i64(opt_string_view(f.current_now)) is None {
        Some(BatteryError::CurrentNow)
    } else if file_u64(opt_string_view(f.capacity)) is None {
        Some(BatteryError::Capacity)
    } else if f.manufacturer is None {
        Some(BatteryError::Manufacturer)
    } else if f.model_name is None {
        Some(BatteryError::ModelName)
    } else {
        None
    }
}

fn read_u64(f: &Option<String>) -> (r: Option<u64>)
    ensures
        r == file_u64(opt_string_view(*f)),
{
    match f {
        Some(s) => {
            let cs = chars_of(s.as_str());
            let t = trim_ws_chars(cs.as_slice());
            parse_unsigned_chars(t.as_slice(), u64::MAX)
        },
        None => None,
    }
}

fn read_i64(f: &Option<String>) -> (r: Option<i64>)
    ensures
        r == file_i64(opt_string_view(*f)),
{
    match f {
        Some(s) => {
            let cs = chars_of(s.as_str());
            let t = trim_ws_chars(cs.as_slice());
            parse_i64_chars(t.as_slice())
        },
        None => None,
    }
}

fn read_text(f: &Option<String>) -> (r: Option<String>)
    ensures
        opt_string_view(r) == file_text(opt_string_view(*f)),
{
    match f {
        Some(s) => {
            let cs = chars_of(s.as_str());
            let t = trim_ws_chars(cs.as_slice());
            Some(string_of(t.as_slice()))
        },
        None => None,
    }
}

fn read_threshold(f: &Option<String>) -> (r: Option<u8>)
    ensures
        r == threshold(opt_string_view(*f)),
{
    match read_u64(f) {
        Some(v) => Some((v % 256) as u8),
        None => None,
    }
}

/// The battery's figures from its files: status (trimmed, "Unknown" when
/// unreadable), voltage in mV and current in mA (the µ-unit files divided by
/// 1000, the current rounded toward zero), charge percentage, last-full
/// capacity in mAh (0 when unknown), the full and design capacities,
/// manufacturer and model (trimmed), and the charge thresholds as bytes.
/// Fails with the first mandatory file that cannot be read.
pub fn battery_reading(f: &BatteryFiles) -> (r: Result<BatteryReading, BatteryError>)
    ensures
        match r {
            Err(e) => first_missing(*f) == Some(e),
            Ok(b) => {
                &&& first_missing(*f) is None
                &&& b.status@ == match file_text(opt_string_view(f.status)) {
                    Some(t) => t,
                    None => "Unknown"@,
                }
                &&& b.voltage_mv == file_u64(opt_string_view(f.voltage_now))->0 / 1000
                &&& b.current_ma == div_toward_zero(
                    file_i64(opt_string_view(f.current_now))->0 as int,
                    1000,
                )
                &&& b.charge_percent == file_u64(opt_string_view(f.capacity))->0
                &&& b.full == either_u64(opt_string_view(f.charge_full), opt_string_view(f.energy_full))
                &&& b.full_design == either_u64(
                    opt_string_view(f.charge_full_design),
                    opt_string_view(f.energy_full_design),
                )
                &&& b.capacity_mah == match b.full {
                    Some(v) => v / 1000,
                    None => 0,
                }
                &&& Some(b.manufacturer@) == file_text(opt_string_view(f.manufacturer))
                &&& Some(b.model@) == file_text(opt_string_view(f.model_name))
                &&& b.charge_start_threshold == threshold(opt_string_view(f.charge_control_start_threshold))
                &&& b.charge_end_threshold == threshold(opt_string_view(f.charge_control_end_threshold))
            },
        },
{
    let status = match read_text(&f.status) {
        Some(s) => s,
        None => "Unknown".to_string(),
    };
    let full = match read_u64(&f.charge_full) {
        Some(v) => Some(v),
        None => read_u64(&f.energy_full),
    };
    let full_design = match read_u64(&f.charge_full_design) {
        Some(v) => Some(v),
        None => read_u64(&f.energy_full_design),
    };
    let voltage = match read_u64(&f.voltage_now) {
        Some(v) => v,
        None => return Err(BatteryError::VoltageNow),
    };
    let current = match read_i64(&f.current_now) {
        Some(v) => v,
        None => return Err(BatteryError::CurrentNow),
    };
    let capacity = match read_u64(&f.capacity) {
        Some(v) => v,
        None => return Err(BatteryError::Capacity),
    };
    let manufacturer = match read_text(&f.manufacturer) {
        Some(v) => v,
        None => return Err(BatteryError::Manufacturer),
    };
    let model = match read_text(&f.model_name) {
        Some(v) => v,
        None => return Err(BatteryError::ModelName),
    };
    let wide: i128 = current as i128;
    let current_ma: i64 = if wide >= 0 {
        (wide / 1000) as i64
    } else {
        (0 - ((0 - wide) / 1000)) as i64
    };
    proof {
        reveal_strlit("Unknown");
    }
    Ok(
        BatteryReading {
            status,
            voltage_mv: voltage / 1000,
            current_ma,
            charge_percent: capacity,
            capacity_mah: match full {
                Some(v) => v / 1000,
                None => 0,
            },
            full,
            full_design,
            manufacturer,
            model,
            charge_start_threshold: read_threshold(&f.charge_control_start_threshold),
            charge_end_threshold: read_threshold(&f.charge_control_end_threshold),
        },
    )
}

} // verus!
