//! The fan rows the daemon reports: which fans are listed, under which id,
//! name and mode, and whether the discrete GPU may be asked for its fans.
use vstd::prelude::*;
use crate::text::{chars_of, contains_chars, decimal, push_decimal, push_text, trim_ws, trim_ws_chars};
use crate::types::NvidiaFanSettings;

verus! {

/// A `/sys/bus/pci/drivers/nvidia` entry: its name, and its
/// `power/runtime_status` when that can be read.
pub struct DriverEntry {
    pub name: String,
    pub runtime_status: Option<String>,
}

/// Is some NVIDIA adapter awake: an entry that is a PCI address (its name
/// holds ':') whose runtime status, trimmed, is not "suspended"?
pub open spec fn some_adapter_awake(entries: Seq<DriverEntry>) -> bool {
    exists|i: int|
        0 <= i < entries.len() && (#[trigger] entries[i]).name@.contains(':')
            && entries[i].runtime_status is Some && trim_ws(entries[i].runtime_status->0@)
            != "suspended"@
}

pub fn nvidia_adapter_awake(entries: &Vec<DriverEntry>) -> (r: bool)
    ensures
        r == some_adapter_awake(entries@),
{
    let colon = chars_of(":");
    let suspended = chars_of("suspended");
    let mut i: usize = 0;
    while i < entries.len()
        invariant
            i <= entries@.len(),
            colon@ == ":"@,
            suspended@ == "suspended"@,
            forall|q: int|
                0 <= q < i ==> !((#[trigger] entries@[q]).name@.contains(':')
                    && entries@[q].runtime_status is Some && trim_ws(
                    entries@[q].runtime_status->0@,
                ) != "suspended"@),
        decreases entries@.len() - i,
    {
        let e = &entries[i];
        let name = chars_of(e.name.as_str());
        let is_pci = contains_chars(name.as_slice(), colon.as_slice());
        proof {
            reveal_strlit(":");
            if is_pci {
                let p = choose|p: int| crate::text::occurs_at(name@, ":"@, p);
                assert(name@[p] == ':') by {
                    assert(name@.subrange(p, p + 1)[0] == ':');
                }
                assert(name@.contains(':'));
            }
            if name@.contains(':') {
                let p = choose|p: int| 0 <= p < name@.len() && name@[p] == ':';
                assert(name@.subrange(p, p + 1) =~= ":"@);
                assert(crate::text::occurs_at(name@, ":"@, p));
            }
        }
        if is_pci {
            match &e.runtime_status {
                Some(st) => {
                    let all = chars_of(st.as_str());
                    let t = trim_ws_chars(all.as_slice());
                    if !crate::text::chars_eq(t.as_slice(), suspended.as_slice()) {
                        return true;
                    }
                },
                None => {},
            }
        }
        i = i + 1;
    }
    false
}

/// The id of fan `fan` of GPU `gpu` among the fan rows.
pub open spec fn gpu_fan_row_id(gpu: u32, fan: u32) -> int {
    100 + gpu * 10 + fan
}

pub fn gpu_fan_id(gpu: u32, fan: u32) -> (r: u32)
    requires
        gpu_fan_row_id(gpu, fan) <= u32::MAX,
    ensures
        r == gpu_fan_row_id(gpu, fan),
{
    100 + gpu * 10 + fan
}

/// "System Fan {id}".
pub fn system_fan_name(id: u32) -> (r: String)
    ensures
        r@ == "System Fan "@ + decimal(id as nat),
{
    let mut s = String::new();
    push_text(&mut s, "System Fan ");
    push_decimal(&mut s, id as u64);
    s
}

/// "NVIDIA GPU {gpu} Fan {fan}".
pub fn gpu_fan_name(gpu: u32, fan: u32) -> (r: String)
    ensures
        r@ == "NVIDIA GPU "@ + decimal(gpu as nat) + " Fan "@ + decimal(fan as nat),
{
    let mut s = String::new();
    push_text(&mut s, "NVIDIA GPU ");
    push_decimal(&mut s, gpu as u64);
    push_text(&mut s, " Fan ");
    push_decimal(&mut s, fan as u64);
    s
}

/// "Manual" or "Auto".
pub open spec fn mode_label(manual: bool) -> Seq<char> {
    if manual {
        "Manual"@
    } else {
        "Auto"@
    }
}

pub fn fan_mode(manual: bool) -> (r: String)
    ensures
        r@ == mode_label(manual),
{
    let mut s = String::new();
    if manual {
        push_text(&mut s, "Manual");
    } else {
        push_text(&mut s, "Auto");
    }
    s
}

/// Is fan `fan` of GPU `gpu` under manual control in the saved settings?
pub open spec fn gpu_fan_manual(settings: Seq<NvidiaFanSettings>, gpu: u32, fan: u32) -> bool {
    exists|i: int|
        0 <= i < settings.len() && (#[trigger] settings[i]).device_index == gpu && settings[i].fan_id
            == fan && settings[i].manual
}

/// Is fan `fan` of GPU `gpu` under manual control in the saved GPU fan
/// settings (none saved: empty)?
pub fn gpu_fan_is_manual(settings: &Vec<NvidiaFanSettings>, gpu: u32, fan: u32) -> (r: bool)
    ensures
        r == gpu_fan_manual(settings@, gpu, fan),
{
    let mut i: usize = 0;
    while i < settings.len()
        invariant
            i <= settings@.len(),
            forall|q: int|
                0 <= q < i ==> !((#[trigger] settings@[q]).device_index == gpu && settings@[q].fan_id
                    == fan && settings@[q].manual),
        decreases settings@.len() - i,
    {
        let e = settings[i];
        if e.device_index == gpu && e.fan_id == fan && e.manual {
            proof {
                assert(settings@[i as int] == e);
            }
            return true;
        }
        i = i + 1;
    }
    false
}

} // verus!
