//! Video memory identity: the driver's frame-buffer codes for memory type,
//! vendor and bus width, decoded, checked and completed.
use vstd::prelude::*;
use crate::text::{chars_of, contains_chars, contains_seq, string_of};

verus! {

/// The memory type a frame-buffer RAM-type code stands for.
pub open spec fn ram_type_name(code: u32) -> Seq<char> {
    if code == 0x01 {
        "SDRAM"@
    } else if code == 0x02 {
        "DDR1"@
    } else if code == 0x03 {
        "DDR2"@
    } else if code == 0x04 {
        "DDR3"@
    } else if code == 0x05 {
        "GDDR2"@
    } else if code == 0x06 {
        "GDDR3"@
    } else if code == 0x07 {
        "GDDR4"@
    } else if code == 0x08 {
        "GDDR5"@
    } else if code == 0x09 {
        "LPDDR2"@
    } else if code == 0x0A {
        "GDDR5X"@
    } else if code == 0x0B {
        "GDDR6"@
    } else if code == 0x0C {
        "GDDR6X"@
    } else if code == 0x0D {
        "HBM1"@
    } else if code == 0x0E {
        "HBM2"@
    } else if code == 0x0F {
        "HBM3"@
    } else if code == 0x10 {
        "LPDDR4"@
    } else if code == 0x11 {
        "LPDDR5"@
    } else if code == 0x12 {
        "GDDR7"@
    } else {
        "Unknown"@
    }
}

/// The memory vendor a frame-buffer vendor code stands for.
pub open spec fn vram_vendor_name(code: u32) -> Seq<char> {
    if code == 0x01 {
        "Micron"@
    } else if code == 0x02 {
        "Samsung"@
    } else if code == 0x03 {
        "Qimonda"@
    } else if code == 0x04 {
        "Elpida"@
    } else if code == 0x05 {
        "Etron"@
    } else if code == 0x06 {
        "Nanya"@
    } else if code == 0x07 {
        "Hynix"@
    } else if code == 0x08 {
        "Mosel"@
    } else if code == 0x09 {
        "Winbond"@
    } else if code == 0x0A {
        "ESMT"@
    } else {
        "Unknown"@
    }
}

fn text(s: &str) -> (r: String)
    ensures
        r@ == s@,
{
    string_of(chars_of(s).as_slice())
}

/// The name of a frame-buffer RAM-type code.
pub fn ram_type(code: u32) -> (r: String)
    ensures
        r@ == ram_type_name(code),
{
    let s = if code == 0x01 {
        "SDRAM"
    } else if code == 0x02 {
        "DDR1"
    } else if code == 0x03 {
        "DDR2"
    } else if code == 0x04 {
        "DDR3"
    } else if code == 0x05 {
        "GDDR2"
    } else if code == 0x06 {
        "GDDR3"
    } else if code == 0x07 {
        "GDDR4"
    } else if code == 0x08 {
        "GDDR5"
    } else if code == 0x09 {
        "LPDDR2"
    } else if code == 0x0A {
        "GDDR5X"
    } else if code == 0x0B {
        "GDDR6"
    } else if code == 0x0C {
        "GDDR6X"
    } else if code == 0x0D {
        "HBM1"
    } else if code == 0x0E {
        "HBM2"
    } else if code == 0x0F {
        "HBM3"
    } else if code == 0x10 {
        "LPDDR4"
    } else if code == 0x11 {
        "LPDDR5"
    } else if code == 0x12 {
        "GDDR7"
    } else {
        "Unknown"
    };
    text(s)
}

/// The name of a frame-buffer memory-vendor code.
pub fn vram_vendor(code: u32) -> (r: String)
    ensures
        r@ == vram_vendor_name(code),
{
    let s = if code == 0x01 {
        "Micron"
    } else if code == 0x02 {
        "Samsung"
    } else if code == 0x03 {
        "Qimonda"
    } else if code == 0x04 {
        "Elpida"
    } else if code == 0x05 {
        "Etron"
    } else if code == 0x06 {
        "Nanya"
    } else if code == 0x07 {
        "Hynix"
    } else if code == 0x08 {
        "Mosel"
    } else if code == 0x09 {
        "Winbond"
    } else if code == 0x0A {
        "ESMT"
    } else {
        "Unknown"
    };
    text(s)
}

/// A bus width the hardware can really have: a multiple of 32 bits from
/// 32 to 1024. Anything else is a mis-decoded word.
pub open spec fn plausible_bus_width(bits: u32) -> bool {
    32 <= bits <= 1024 && bits % 32 == 0
}

/// The memory type, vendor and bus width that the frame-buffer codes give;
/// an implausible bus width is dropped.
pub fn vram_identity(ram_type_code: Option<u32>, vendor_code: Option<u32>, bus_width: Option<u32>) -> (r: (
    Option<String>,
    Option<String>,
    Option<u32>,
))
    ensures
        match ram_type_code {
            Some(c) => r.0 is Some && r.0->0@ == ram_type_name(c),
            None => r.0 is None,
        },
        match vendor_code {
            Some(c) => r.1 is Some && r.1->0@ == vram_vendor_name(c),
            None => r.1 is None,
        },
        r.2 == match bus_width {
            Some(b) => if plausible_bus_width(b) {
                Some(b)
            } else {
                None
            },
            None => None,
        },
{
    let t = match ram_type_code {
        Some(c) => Some(ram_type(c)),
        None => None,
    };
    let v = match vendor_code {
        Some(c) => Some(vram_vendor(c)),
        None => None,
    };
    let w = match bus_width {
        Some(b) => if 32 <= b && b <= 1024 && b % 32 == 0 {
            Some(b)
        } else {
            None
        },
        None => None,
    };
    (t, v, w)
}

/// The bus width to publish: the frame-buffer one when it is non-zero,
/// else NVML's when that is non-zero.
pub fn resolve_bus_width(frame_buffer: Option<u32>, nvml: Option<u32>) -> (r: Option<u32>)
    ensures
        r == match frame_buffer {
            Some(b) if b > 0 => Some(b),
            _ => match nvml {
                Some(n) if n > 0 => Some(n),
                _ => None,
            },
        },
{
    match frame_buffer {
        Some(b) if b > 0 => Some(b),
        _ => match nvml {
            Some(n) if n > 0 => Some(n),
            _ => None,
        },
    }
}

/// Transfers per memory clock for a memory type: 16 for GDDR6X, 8 for
/// GDDR6, 4 for GDDR5, and 2 (double data rate) otherwise.
pub open spec fn transfers_per_clock(vram_type: Option<Seq<char>>) -> u32 {
    match vram_type {
        Some(t) => if contains_seq(t, "GDDR6X"@) {
            16
        } else if contains_seq(t, "GDDR6"@) {
            8
        } else if contains_seq(t, "GDDR5"@) {
            4
        } else {
            2
        },
        None => 2,
    }
}

/// The multiplier the memory bandwidth is computed with (see
/// `transfers_per_clock`).
pub fn bandwidth_multiplier(vram_type: Option<&str>) -> (r: u32)
    ensures
        r == transfers_per_clock(match vram_type {
            Some(t) => Some(t@),
            None => None,
        }),
{
    match vram_type {
        Some(t) => {
            let c = chars_of(t);
            if contains_chars(c.as_slice(), chars_of("GDDR6X").as_slice()) {
                16
            } else if contains_chars(c.as_slice(), chars_of("GDDR6").as_slice()) {
                8
            } else if contains_chars(c.as_slice(), chars_of("GDDR5").as_slice()) {
                4
            } else {
                2
            }
        },
        None => 2,
    }
}

/// The name of a resource-manager status code the driver answers a
/// control call with (from the driver's status-code table).
pub open spec fn rm_status_text(status: u32) -> Seq<char> {
    if status == 0x1a {
        "NV_ERR_INSUFFICIENT_RESOURCES"@
    } else if status == 0x1b {
        "NV_ERR_INSUFFICIENT_PERMISSIONS"@
    } else if status == 0x1c {
        "NV_ERR_INSUFFICIENT_POWER"@
    } else if status == 0x1e {
        "NV_ERR_INVALID_ADDRESS"@
    } else if status == 0x1f {
        "NV_ERR_INVALID_ARGUMENT"@
    } else if status == 0x33 {
        "NV_ERR_INVALID_OBJECT_HANDLE"@
    } else if status == 0x40 {
        "NV_ERR_INVALID_STATE"@
    } else if status == 0x56 {
        "NV_ERR_NOT_SUPPORTED"@
    } else if status == 0x57 {
        "NV_ERR_OBJECT_NOT_FOUND"@
    } else if status == 0xffff {
        "NV_ERR_GENERIC"@
    } else {
        "UNKNOWN_ERROR"@
    }
}

/// The name of a resource-manager status code (see `rm_status_text`).
pub fn rm_status_name(status: u32) -> (r: String)
    ensures
        r@ == rm_status_text(status),
{
    let s = if status == 0x1a {
        "NV_ERR_INSUFFICIENT_RESOURCES"
    } else if status == 0x1b {
        "NV_ERR_INSUFFICIENT_PERMISSIONS"
    } else if status == 0x1c {
        "NV_ERR_INSUFFICIENT_POWER"
    } else if status == 0x1e {
        "NV_ERR_INVALID_ADDRESS"
    } else if status == 0x1f {
        "NV_ERR_INVALID_ARGUMENT"
    } else if status == 0x33 {
        "NV_ERR_INVALID_OBJECT_HANDLE"
    } else if status == 0x40 {
        "NV_ERR_INVALID_STATE"
    } else if status == 0x56 {
        "NV_ERR_NOT_SUPPORTED"
    } else if status == 0x57 {
        "NV_ERR_OBJECT_NOT_FOUND"
    } else if status == 0xffff {
        "NV_ERR_GENERIC"
    } else {
        "UNKNOWN_ERROR"
    };
    text(s)
}

} // verus!
