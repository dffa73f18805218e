//! Names of integrated GPUs from their PCI vendor and device ids.
use vstd::prelude::*;
use crate::text::{chars_eq, chars_of, decimal, push_decimal};

verus! {

/// Text equality.
pub fn same_text(a: &str, b: &str) -> (r: bool)
    ensures
        r == (a@ == b@),
{
    let x = chars_of(a);
    let y = chars_of(b);
    chars_eq(x.as_slice(), y.as_slice())
}

/// Names of the common AMD integrated GPUs by PCI device id.
pub open spec fn amd_gpu_name(id: Seq<char>) -> Option<Seq<char>> {
    if id == "0x15dd"@ {
        Some("AMD Radeon Vega 8"@)
    } else if id == "0x15d8"@ {
        Some("AMD Radeon Vega 3"@)
    } else if id == "0x1636"@ {
        Some("AMD Radeon Graphics (Renoir)"@)
    } else if id == "0x1638"@ {
        Some("AMD Radeon Graphics (Cezanne)"@)
    } else if id == "0x164c"@ {
        Some("AMD Radeon 680M"@)
    } else if id == "0x164d"@ {
        Some("AMD Radeon 660M"@)
    } else if id == "0x15bf"@ {
        Some("AMD Radeon 780M"@)
    } else if id == "0x15c8"@ {
        Some("AMD Radeon 760M"@)
    } else {
        None
    }
}

/// Names of the common Intel integrated GPUs by PCI device id.
pub open spec fn intel_gpu_name(id: Seq<char>) -> Option<Seq<char>> {
    if id == "0x3ea0"@ || id == "0x3ea5"@ {
        Some("Intel UHD Graphics 620"@)
    } else if id == "0x9a49"@ {
        Some("Intel UHD Graphics (Tiger Lake)"@)
    } else if id == "0x9a78"@ {
        Some("Intel UHD Graphics (Rocket Lake)"@)
    } else if id == "0x9a40"@ || id == "0x9a60"@ {
        Some("Intel Iris Xe Graphics"@)
    } else if id == "0xa7a0"@ || id == "0xa7a1"@ {
        Some("Intel Iris Xe Graphics (Alder Lake)"@)
    } else if id == "0x8a52"@ || id == "0x8a5a"@ {
        Some("Intel Iris Plus Graphics"@)
    } else if id == "0x56a0"@ || id == "0x56a1"@ {
        Some("Intel Arc Graphics (DG2)"@)
    } else {
        None
    }
}

pub open spec fn opt_view(o: Option<String>) -> Option<Seq<char>> {
    match o {
        Some(s) => Some(s@),
        None => None,
    }
}

/// AMD GPU name from its PCI device id.
pub fn get_amd_gpu_name(device_id: &str) -> (r: Option<String>)
    ensures
        opt_view(r) == amd_gpu_name(device_id@),
{
    let name = if same_text(device_id, "0x15dd") {
        "AMD Radeon Vega 8"
    } else if same_text(device_id, "0x15d8") {
        "AMD Radeon Vega 3"
    } else if same_text(device_id, "0x1636") {
        "AMD Radeon Graphics (Renoir)"
    } else if same_text(device_id, "0x1638") {
        "AMD Radeon Graphics (Cezanne)"
    } else if same_text(device_id, "0x164c") {
        "AMD Radeon 680M"
    } else if same_text(device_id, "0x164d") {
        "AMD Radeon 660M"
    } else if same_text(device_id, "0x15bf") {
        "AMD Radeon 780M"
    } else if same_text(device_id, "0x15c8") {
        "AMD Radeon 760M"
    } else {
        return None;
    };
    Some(name.to_owned())
}

/// Intel GPU name from its PCI device id.
pub fn get_intel_gpu_name(device_id: &str) -> (r: Option<String>)
    ensures
        opt_view(r) == intel_gpu_name(device_id@),
{
    let name = if same_text(device_id, "0x3ea0") || same_text(device_id, "0x3ea5") {
        "Intel UHD Graphics 620"
    } else if same_text(device_id, "0x9a49") {
        "Intel UHD Graphics (Tiger Lake)"
    } else if same_text(device_id, "0x9a78") {
        "Intel UHD Graphics (Rocket Lake)"
    } else if same_text(device_id, "0x9a40") || same_text(device_id, "0x9a60") {
        "Intel Iris Xe Graphics"
    } else if same_text(device_id, "0xa7a0") || same_text(device_id, "0xa7a1") {
        "Intel Iris Xe Graphics (Alder Lake)"
    } else if same_text(device_id, "0x8a52") || same_text(device_id, "0x8a5a") {
        "Intel Iris Plus Graphics"
    } else if same_text(device_id, "0x56a0") || same_text(device_id, "0x56a1") {
        "Intel Arc Graphics (DG2)"
    } else {
        return None;
    };
    Some(name.to_owned())
}

/// The name a DRM card is listed under: known AMD and Intel iGPUs by name,
/// other AMD and Intel GPUs generically, anything else as "GPU {card}".
/// NVIDIA cards (vendor 0x10de) are not listed here (`None`): NVML reports
/// them.
pub open spec fn drm_card_name(vendor: Seq<char>, device_id: Seq<char>, card: u32) -> Option<Seq<char>> {
    if vendor == "0x10de"@ {
        None
    } else if vendor == "0x1002"@ {
        Some(
            match amd_gpu_name(device_id) {
                Some(n) => n,
                None => "AMD iGPU"@,
            },
        )
    } else if vendor == "0x8086"@ {
        Some(
            match intel_gpu_name(device_id) {
                Some(n) => n,
                None => "Intel iGPU"@,
            },
        )
    } else {
        Some("GPU "@ + decimal(card as nat))
    }
}

/// The name of DRM card `card` from its (trimmed) vendor and device ids.
pub fn integrated_gpu_name(vendor: &str, device_id: &str, card: u32) -> (r: Option<String>)
    ensures
        opt_view(r) == drm_card_name(vendor@, device_id@, card),
{
    if same_text(vendor, "0x10de") {
        None
    } else if same_text(vendor, "0x1002") {
        match get_amd_gpu_name(device_id) {
            Some(n) => Some(n),
            None => Some("AMD iGPU".to_owned()),
        }
    } else if same_text(vendor, "0x8086") {
        match get_intel_gpu_name(device_id) {
            Some(n) => Some(n),
            None => Some("Intel iGPU".to_owned()),
        }
    } else {
        let mut s = "GPU ".to_owned();
        push_decimal(&mut s, card as u64);
        Some(s)
    }
}

} // verus!
