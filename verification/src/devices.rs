//! Fan, webcam, TDP-profile, battery and NVIDIA requests: the decision of
//! what to send to which driver.
//!
//! The vendor driver (`/dev/tuxedo_io`) and NVML are reached by the caller;
//! the functions here decide, from what the caller found, which command a
//! request becomes or which error it reports.
use vstd::prelude::*;
use crate::keyboard::HardwareInterface;
use crate::types::{BatterySettings, NvidiaFanSettings};

verus! {

/// How the vendor driver could be reached.
#[derive(Debug, Clone, Copy, PartialEq, Eq, Structural)]
pub enum IoAccess {
    /// `/dev/tuxedo_io` does not exist.
    Absent,
    /// It exists but could not be opened.
    Unopenable,
    /// Open, with the embedded-controller interface it reports.
    Open(HardwareInterface),
}

/// Why a device request failed.
#[derive(Debug, Clone, Copy, PartialEq, Eq, Structural)]
pub enum DeviceError {
    FanControlUnavailable,
    WebcamControlUnavailable,
    TdpProfilesUnavailable,
    /// The vendor driver exists but could not be opened.
    IoUnavailable,
    /// No TDP profile has the requested name.
    TdpProfileNotFound,
    /// The driver lists no TDP profile.
    NoTdpProfiles,
}

/// A command for the vendor driver.
#[derive(Debug, Clone, Copy, PartialEq, Eq, Structural)]
pub enum IoCommand {
    SetFanSpeed { fan_id: u32, percent: u32 },
    SetFansAuto,
    SetWebcam(bool),
    SetPerformanceProfile(u32),
}

/// The command of a manual fan speed request; speeds above 100 % are capped.
pub fn set_fan_speed(fan_id: u32, speed_percent: u32, io: IoAccess) -> (r: Result<IoCommand, DeviceError>)
    ensures
        io == IoAccess::Absent ==> r == Err::<IoCommand, DeviceError>(DeviceError::FanControlUnavailable),
        io == IoAccess::Unopenable ==> r == Err::<IoCommand, DeviceError>(DeviceError::IoUnavailable),
        io is Open ==> r == Ok::<IoCommand, DeviceError>(
            IoCommand::SetFanSpeed {
                fan_id,
                percent: if speed_percent <= 100 {
                    speed_percent
                } else {
                    100
                },
            },
        ),
{
    match io {
        IoAccess::Absent => Err(DeviceError::FanControlUnavailable),
        IoAccess::Unopenable => Err(DeviceError::IoUnavailable),
        IoAccess::Open(_) => {
            let speed = if speed_percent <= 100 {
                speed_percent
            } else {
                100
            };
            Ok(IoCommand::SetFanSpeed { fan_id, percent: speed })
        },
    }
}

/// The command returning every fan to automatic control (the driver has one
/// switch for all fans, so `fan_id` does not matter).
pub fn set_fan_auto(fan_id: u32, io: IoAccess) -> (r: Result<IoCommand, DeviceError>)
    ensures
        io == IoAccess::Absent ==> r == Err::<IoCommand, DeviceError>(DeviceError::FanControlUnavailable),
        io == IoAccess::Unopenable ==> r == Err::<IoCommand, DeviceError>(DeviceError::IoUnavailable),
        io is Open ==> r == Ok::<IoCommand, DeviceError>(IoCommand::SetFansAuto),
{
    match io {
        IoAccess::Absent => Err(DeviceError::FanControlUnavailable),
        IoAccess::Unopenable => Err(DeviceError::IoUnavailable),
        IoAccess::Open(_) => Ok(IoCommand::SetFansAuto),
    }
}

/// The command switching the webcam on or off.
pub fn set_webcam_state(enabled: bool, io: IoAccess) -> (r: Result<IoCommand, DeviceError>)
    ensures
        io == IoAccess::Absent ==> r == Err::<IoCommand, DeviceError>(
            DeviceError::WebcamControlUnavailable,
        ),
        io == IoAccess::Unopenable ==> r == Err::<IoCommand, DeviceError>(DeviceError::IoUnavailable),
        io is Open ==> r == Ok::<IoCommand, DeviceError>(IoCommand::SetWebcam(enabled)),
{
    match io {
        IoAccess::Absent => Err(DeviceError::WebcamControlUnavailable),
        IoAccess::Unopenable => Err(DeviceError::IoUnavailable),
        IoAccess::Open(_) => Ok(IoCommand::SetWebcam(enabled)),
    }
}

/// Whether the webcam is on. Only Clevo boards can report it; everywhere
/// else, and when the Clevo read fails (`reading` is `None`), the webcam
/// counts as on.
pub fn get_webcam_state(io: IoAccess, reading: Option<bool>) -> (r: Result<bool, DeviceError>)
    ensures
        io == IoAccess::Absent ==> r == Ok::<bool, DeviceError>(true),
        io == IoAccess::Unopenable ==> r == Err::<bool, DeviceError>(DeviceError::IoUnavailable),
        io == IoAccess::Open(HardwareInterface::Clevo) ==> r == Ok::<bool, DeviceError>(
            match reading {
                Some(s) => s,
                None => true,
            },
        ),
        (io is Open && io != IoAccess::Open(HardwareInterface::Clevo)) ==> r == Ok::<bool, DeviceError>(
            true,
        ),
{
    match io {
        IoAccess::Absent => Ok(true),
        IoAccess::Unopenable => Err(DeviceError::IoUnavailable),
        IoAccess::Open(HardwareInterface::Clevo) => match reading {
            Some(s) => Ok(s),
            None => Ok(true),
        },
        IoAccess::Open(_) => Ok(true),
    }
}

/// The TDP profiles the driver lists; `listed` is `None` when the listing
/// failed. Without the driver there are none.
pub fn get_tdp_profiles(io: IoAccess, listed: Option<Vec<String>>) -> (r: Vec<String>)
    ensures
        io is Open ==> match listed {
            Some(l) => r@ == l@,
            None => r@.len() == 0,
        },
        !(io is Open) ==> r@.len() == 0,
{
    match io {
        IoAccess::Open(_) => match listed {
            Some(l) => l,
            None => Vec::new(),
        },
        _ => Vec::new(),
    }
}

pub open spec fn texts(v: Seq<String>) -> Seq<Seq<char>> {
    v.map_values(|s: String| s@)
}

/// Position of the first profile named `name`.
pub open spec fn profile_position(profiles: Seq<Seq<char>>, name: Seq<char>) -> Option<int> {
    if exists|i: int| is_first_profile(profiles, name, i) {
        Some(choose|i: int| is_first_profile(profiles, name, i))
    } else {
        None
    }
}

pub open spec fn is_first_profile(profiles: Seq<Seq<char>>, name: Seq<char>, i: int) -> bool {
    0 <= i < profiles.len() && profiles[i] == name && forall|q: int| 0 <= q < i ==> profiles[q] != name
}

/// The driver id of the TDP profile named `profile_name`: its position in
/// the driver's list.
pub fn set_tdp_profile(profile_name: &str, io: IoAccess, profiles: &[String]) -> (r: Result<IoCommand, DeviceError>)
    requires
        profiles@.len() <= u32::MAX,
    ensures
        io == IoAccess::Absent ==> r == Err::<IoCommand, DeviceError>(
            DeviceError::TdpProfilesUnavailable,
        ),
        io == IoAccess::Unopenable ==> r == Err::<IoCommand, DeviceError>(DeviceError::IoUnavailable),
        io is Open ==> match profile_position(texts(profiles@), profile_name@) {
            Some(i) => r == Ok::<IoCommand, DeviceError>(IoCommand::SetPerformanceProfile(i as u32)),
            None => r == Err::<IoCommand, DeviceError>(DeviceError::TdpProfileNotFound),
        },
{
    match io {
        IoAccess::Absent => {
            return Err(DeviceError::TdpProfilesUnavailable);
        },
        IoAccess::Unopenable => {
            return Err(DeviceError::IoUnavailable);
        },
        IoAccess::Open(_) => {},
    }
    let name = profile_name.to_owned();
    let ghost ps = texts(profiles@);
    let mut i: usize = 0;
    while i < profiles.len()
        invariant
            io is Open,
            ps == texts(profiles@),
            profiles@.len() <= u32::MAX,
            name@ == profile_name@,
            i <= profiles@.len(),
            forall|q: int| 0 <= q < i ==> ps[q] != profile_name@,
        decreases profiles@.len() - i,
    {
        if profiles[i] == name {
            proof {
                assert(is_first_profile(ps, profile_name@, i as int));
                let c = choose|k: int| is_first_profile(ps, profile_name@, k);
                if c < i {
                    assert(ps[c] != profile_name@);
                } else if c > i {
                    assert(ps[i as int] != profile_name@);
                }
            }
            return Ok(IoCommand::SetPerformanceProfile(i as u32));
        }
        i = i + 1;
    }
    Err(DeviceError::TdpProfileNotFound)
}

/// The active TDP profile. Uniwill boards report it (1-based, `uw_profile`);
/// when they do not, or on other boards, the first profile is reported.
pub fn get_current_tdp_profile(io: IoAccess, profiles: &[String], uw_profile: Option<u32>) -> (r: Result<
    String,
    DeviceError,
>)
    ensures
        io == IoAccess::Absent ==> r == Err::<String, DeviceError>(DeviceError::TdpProfilesUnavailable),
        io == IoAccess::Unopenable ==> r == Err::<String, DeviceError>(DeviceError::IoUnavailable),
        io is Open && profiles@.len() == 0 ==> r == Err::<String, DeviceError>(
            DeviceError::NoTdpProfiles,
        ),
        io is Open && profiles@.len() > 0 ==> (r matches Ok(name) && name@ == (
        if io == IoAccess::Open(HardwareInterface::Uniwill) && (uw_profile matches Some(id) && (if id
            > 0 {
            id - 1
        } else {
            0
        }) < profiles@.len()) {
            profiles@[(if uw_profile.unwrap() > 0 {
                uw_profile.unwrap() - 1
            } else {
                0
            }) as int]@
        } else {
            profiles@[0]@
        })),
{
    let interface = match io {
        IoAccess::Absent => {
            return Err(DeviceError::TdpProfilesUnavailable);
        },
        IoAccess::Unopenable => {
            return Err(DeviceError::IoUnavailable);
        },
        IoAccess::Open(i) => i,
    };
    if profiles.len() == 0 {
        return Err(DeviceError::NoTdpProfiles);
    }
    if interface == HardwareInterface::Uniwill {
        if let Some(id) = uw_profile {
            let idx = id.saturating_sub(1) as usize;
            if idx < profiles.len() {
                return Ok(profiles[idx].clone());
            }
        }
    }
    Ok(profiles[0].clone())
}

/// A request to the battery charge-control interface.
#[derive(Debug, Clone, Copy, PartialEq, Eq, Structural)]
pub enum BatteryCommand {
    /// Charge type "Custom" (thresholds apply).
    CustomChargeType,
    /// Charge type "Standard" (no thresholds).
    StandardChargeType,
    StartThreshold(u8),
    EndThreshold(u8),
}

/// The battery commands of a settings change, in order; none when charge
/// control is not available.
pub fn apply_battery_settings(settings: &BatterySettings, available: bool) -> (r: Vec<BatteryCommand>)
    ensures
        !available ==> r@.len() == 0,
        available && settings.control_enabled ==> r@ == seq![
            BatteryCommand::CustomChargeType,
            BatteryCommand::StartThreshold(settings.charge_start_threshold),
            BatteryCommand::EndThreshold(settings.charge_end_threshold),
        ],
        available && !settings.control_enabled ==> r@ == seq![BatteryCommand::StandardChargeType],
{
    let mut v = Vec::new();
    if !available {
        return v;
    }
    if settings.control_enabled {
        v.push(BatteryCommand::CustomChargeType);
        v.push(BatteryCommand::StartThreshold(settings.charge_start_threshold));
        v.push(BatteryCommand::EndThreshold(settings.charge_end_threshold));
        assert(v@ =~= seq![
            BatteryCommand::CustomChargeType,
            BatteryCommand::StartThreshold(settings.charge_start_threshold),
            BatteryCommand::EndThreshold(settings.charge_end_threshold),
        ]);
    } else {
        v.push(BatteryCommand::StandardChargeType);
        assert(v@ =~= seq![BatteryCommand::StandardChargeType]);
    }
    v
}

/// What a fan-settings change does to the daemon's fan-curve state.
#[derive(Debug, Clone, Copy, PartialEq, Eq, Structural)]
pub enum FanDaemonUpdate {
    /// Fan control is not available: nothing changes.
    Unchanged,
    /// The curves become the daemon's fan state.
    Enable,
    /// The daemon stops driving the fans.
    Disable,
}

/// A fan-settings change: the state update, then (when control is switched
/// off) the command returning the fans to automatic control.
pub fn apply_fan_settings(control_enabled: bool, io: IoAccess) -> (r: (FanDaemonUpdate, Option<
    Result<IoCommand, DeviceError>,
>))
    ensures
        io == IoAccess::Absent ==> r == (FanDaemonUpdate::Unchanged, None::<Result<IoCommand, DeviceError>>),
        io != IoAccess::Absent && control_enabled ==> r == (FanDaemonUpdate::Enable, None::<
            Result<IoCommand, DeviceError>,
        >),
        io != IoAccess::Absent && !control_enabled ==> r.0 == FanDaemonUpdate::Disable && r.1 == Some(
            set_fan_auto_spec(io),
        ),
{
    if io == IoAccess::Absent {
        return (FanDaemonUpdate::Unchanged, None);
    }
    if control_enabled {
        (FanDaemonUpdate::Enable, None)
    } else {
        (FanDaemonUpdate::Disable, Some(set_fan_auto(0, io)))
    }
}

pub open spec fn set_fan_auto_spec(io: IoAccess) -> Result<IoCommand, DeviceError> {
    match io {
        IoAccess::Absent => Err(DeviceError::FanControlUnavailable),
        IoAccess::Unopenable => Err(DeviceError::IoUnavailable),
        IoAccess::Open(_) => Ok(IoCommand::SetFansAuto),
    }
}

/// A request for NVML.
#[derive(Debug, Clone, Copy, PartialEq, Eq, Structural)]
pub enum NvmlCommand {
    ResetLockedClocks { device: u32 },
    SetLockedClocks { device: u32, min_mhz: u32, max_mhz: u32 },
    SetPowerLimit { device: u32, milliwatts: u32 },
    SetFanSpeed { device: u32, fan: u32, percent: u32 },
    SetDefaultFanSpeed { device: u32, fan: u32 },
}

/// Returns the GPU's clocks to the driver's control.
pub fn reset_gpu_clocks(device_index: u32) -> (r: NvmlCommand)
    ensures
        r == (NvmlCommand::ResetLockedClocks { device: device_index }),
{
    NvmlCommand::ResetLockedClocks { device: device_index }
}

/// Locks the GPU's core clock to a range (MHz).
pub fn set_gpu_locked_clocks(device_index: u32, min_clock: u32, max_clock: u32) -> (r: NvmlCommand)
    ensures
        r == (NvmlCommand::SetLockedClocks { device: device_index, min_mhz: min_clock, max_mhz: max_clock }),
{
    NvmlCommand::SetLockedClocks { device: device_index, min_mhz: min_clock, max_mhz: max_clock }
}

/// Sets the GPU's power limit; NVML takes milliwatts.
pub fn set_gpu_power_limit(device_index: u32, limit_watts: u32) -> (r: NvmlCommand)
    requires
        limit_watts as nat * 1000 <= u32::MAX,
    ensures
        r == (NvmlCommand::SetPowerLimit { device: device_index, milliwatts: (limit_watts * 1000) as u32 }),
{
    NvmlCommand::SetPowerLimit { device: device_index, milliwatts: limit_watts * 1000 }
}

/// Sets one GPU fan to a manual speed (percent).
pub fn set_gpu_fan_speed(device_index: u32, fan_index: u32, speed_percent: u32) -> (r: NvmlCommand)
    ensures
        r == (NvmlCommand::SetFanSpeed { device: device_index, fan: fan_index, percent: speed_percent }),
{
    NvmlCommand::SetFanSpeed { device: device_index, fan: fan_index, percent: speed_percent }
}

/// Returns one GPU fan to the driver's automatic control.
pub fn set_gpu_fan_auto(device_index: u32, fan_index: u32) -> (r: NvmlCommand)
    ensures
        r == (NvmlCommand::SetDefaultFanSpeed { device: device_index, fan: fan_index }),
{
    NvmlCommand::SetDefaultFanSpeed { device: device_index, fan: fan_index }
}

pub open spec fn fan_command(f: NvidiaFanSettings) -> NvmlCommand {
    if f.manual {
        NvmlCommand::SetFanSpeed { device: f.device_index, fan: f.fan_id, percent: f.speed }
    } else {
        NvmlCommand::SetDefaultFanSpeed { device: f.device_index, fan: f.fan_id }
    }
}

/// The NVML commands of a profile's NVIDIA fan settings, one per fan, in
/// order: a manual speed, or automatic control.
pub fn nvidia_fan_commands(fans: &[NvidiaFanSettings]) -> (r: Vec<NvmlCommand>)
    ensures
        r@.len() == fans@.len(),
        forall|k: int| 0 <= k < fans@.len() ==> #[trigger] r@[k] == fan_command(fans@[k]),
{
    let mut out: Vec<NvmlCommand> = Vec::new();
    let mut k: usize = 0;
    while k < fans.len()
        invariant
            k <= fans@.len(),
            out@.len() == k,
            forall|q: int| 0 <= q < k ==> #[trigger] out@[q] == fan_command(fans@[q]),
        decreases fans@.len() - k,
    {
        let f = fans[k];
        let c = if f.manual {
            set_gpu_fan_speed(f.device_index, f.fan_id, f.speed)
        } else {
            set_gpu_fan_auto(f.device_index, f.fan_id)
        };
        out.push(c);
        k = k + 1;
    }
    out
}

/// Where a GPU's core-clock range comes from this call.
#[derive(Debug, Clone, Copy, PartialEq, Eq, Structural)]
pub enum ClockRangeSource {
    /// The cached base range: no query needed.
    Cached(u32, u32),
    /// Not cached and the GPU is awake: query NVML.
    Query,
    /// Not cached and the GPU is suspended: refuse rather than wake it.
    Refuse,
}

/// Decides where the core-clock range comes from: the cache first, and never
/// a query that would wake a suspended GPU.
pub fn gpu_clock_range_source(cached: Option<(u32, u32)>, suspended: bool) -> (r: ClockRangeSource)
    ensures
        cached matches Some((lo, hi)) ==> r == ClockRangeSource::Cached(lo, hi),
        cached is None && suspended ==> r == ClockRangeSource::Refuse,
        cached is None && !suspended ==> r == ClockRangeSource::Query,
{
    match cached {
        Some((lo, hi)) => ClockRangeSource::Cached(lo, hi),
        None => if suspended {
            ClockRangeSource::Refuse
        } else {
            ClockRangeSource::Query
        },
    }
}

/// Where a GPU's clock-offset limits come from this call.
#[derive(Debug, Clone, Copy, PartialEq, Eq, Structural)]
pub enum OffsetLimitsSource {
    /// The cached limits: no query needed.
    Cached(i32, i32),
    /// Not cached and the GPU is awake: query NVML.
    Query,
    /// Not cached and the GPU is suspended: refuse rather than wake it.
    Refuse,
}

/// Decides where the core or memory offset limits come from: the cache
/// first, and never a query that would wake a suspended GPU.
pub fn offset_limits_source(cached: Option<(i32, i32)>, suspended: bool) -> (r: OffsetLimitsSource)
    ensures
        cached matches Some((lo, hi)) ==> r == OffsetLimitsSource::Cached(lo, hi),
        cached is None && suspended ==> r == OffsetLimitsSource::Refuse,
        cached is None && !suspended ==> r == OffsetLimitsSource::Query,
{
    match cached {
        Some((lo, hi)) => OffsetLimitsSource::Cached(lo, hi),
        None => if suspended {
            OffsetLimitsSource::Refuse
        } else {
            OffsetLimitsSource::Query
        },
    }
}

/// The smallest and largest of the clocks NVML lists, if it lists any.
pub fn clock_span(clocks: &Vec<u32>) -> (r: Option<(u32, u32)>)
    ensures
        clocks@.len() == 0 ==> r is None,
        clocks@.len() > 0 ==> (r matches Some((lo, hi)) && clocks@.contains(lo) && clocks@.contains(hi)
            && forall|i: int| 0 <= i < clocks@.len() ==> lo <= #[trigger] clocks@[i] <= hi),
{
    if clocks.len() == 0 {
        return None;
    }
    let mut lo = clocks[0];
    let mut hi = clocks[0];
    let mut i: usize = 1;
    while i < clocks.len()
        invariant
            1 <= i <= clocks@.len(),
            clocks@.contains(lo),
            clocks@.contains(hi),
            forall|q: int| 0 <= q < i ==> lo <= #[trigger] clocks@[q] <= hi,
        decreases clocks@.len() - i,
    {
        let c = clocks[i];
        if c < lo {
            lo = c;
        }
        if c > hi {
            hi = c;
        }
        proof {
            assert(clocks@[i as int] == c);
        }
        i = i + 1;
    }
    Some((lo, hi))
}

/// `v + offset`, held within the range of `u32`.
pub open spec fn offset_clock(v: u32, offset: i32) -> u32 {
    let s = v + offset;
    if s < 0 {
        0
    } else if s > u32::MAX {
        u32::MAX
    } else {
        s as u32
    }
}

fn offset_clock_exec(v: u32, offset: i32) -> (r: u32)
    ensures
        r == offset_clock(v, offset),
{
    let s: i64 = v as i64 + offset as i64;
    if s < 0 {
        0
    } else if s > u32::MAX as i64 {
        u32::MAX
    } else {
        s as u32
    }
}

/// The effective core-clock range shown to the user: the base range moved
/// by the applied core offset (MHz), never below zero.
pub fn get_gpu_clock_ranges(base: (u32, u32), core_offset_mhz: i32) -> (r: (u32, u32))
    ensures
        r == (offset_clock(base.0, core_offset_mhz), offset_clock(base.1, core_offset_mhz)),
{
    (offset_clock_exec(base.0, core_offset_mhz), offset_clock_exec(base.1, core_offset_mhz))
}


/// The answer to a request for a GPU's effective core-clock range.
#[derive(Debug, Clone, Copy, PartialEq, Eq, Structural)]
pub enum ClockRangeAnswer {
    /// The cached base range moved by the manual core offset.
    Range(u32, u32),
    /// Not cached and the GPU is suspended: refused rather than woken.
    Refuse,
    /// Not cached and the GPU is awake: query NVML for the base range,
    /// then move it by the offset (`get_gpu_clock_ranges`).
    Query,
}

/// The effective core-clock range from the cache, without touching the GPU:
/// the cached base range moved by the manual core offset (whole MHz, the
/// fraction dropped downwards), never below zero; a refusal when nothing is
/// cached and the GPU is suspended; otherwise a query.
pub fn clock_range_answer(cached: Option<(u32, u32)>, suspended: bool, core_offset_mhz: i32) -> (r:
    ClockRangeAnswer)
    ensures
        cached matches Some((lo, hi)) ==> r == ClockRangeAnswer::Range(
            offset_clock(lo, core_offset_mhz),
            offset_clock(hi, core_offset_mhz),
        ),
        cached is None && suspended ==> r == ClockRangeAnswer::Refuse,
        cached is None && !suspended ==> r == ClockRangeAnswer::Query,
{
    match gpu_clock_range_source(cached, suspended) {
        ClockRangeSource::Cached(lo, hi) => {
            let (a, b) = get_gpu_clock_ranges((lo, hi), core_offset_mhz);
            ClockRangeAnswer::Range(a, b)
        },
        ClockRangeSource::Refuse => ClockRangeAnswer::Refuse,
        ClockRangeSource::Query => ClockRangeAnswer::Query,
    }
}

/// How the vendor interface is described to the GUI: its kind and its fan
/// count, or "None" without the interface.
pub fn hardware_interface_summary(io: Option<HardwareInterface>, fan_count: u32) -> (r: String)
    ensures
        r@ == match io {
            None => "None"@,
            Some(i) => "Interface: "@ + match i {
                HardwareInterface::Clevo => "Clevo"@,
                HardwareInterface::Uniwill => "Uniwill"@,
                HardwareInterface::Unknown => "None"@,
            } + ", Fans: "@ + crate::text::decimal(fan_count as nat),
        },
{
    let mut s = String::new();
    match io {
        None => {
            crate::text::push_text(&mut s, "None");
        },
        Some(i) => {
            crate::text::push_text(&mut s, "Interface: ");
            match i {
                HardwareInterface::Clevo => crate::text::push_text(&mut s, "Clevo"),
                HardwareInterface::Uniwill => crate::text::push_text(&mut s, "Uniwill"),
                HardwareInterface::Unknown => crate::text::push_text(&mut s, "None"),
            }
            crate::text::push_text(&mut s, ", Fans: ");
            crate::text::push_decimal(&mut s, fan_count as u64);
        },
    }
    s
}

/// The memory-clock span over the performance states: the smallest
/// minimum and the largest maximum of the (min, max) ranges NVML gave.
/// A minimum of `u32::MAX` counts as no reading, so the span exists only
/// when some range has a smaller minimum.
pub open spec fn pstate_span_found(ranges: Seq<(u32, u32)>) -> bool {
    exists|i: int| 0 <= i < ranges.len() && (#[trigger] ranges[i]).0 < u32::MAX
}

pub fn pstate_clock_span(ranges: &Vec<(u32, u32)>) -> (r: Option<(u32, u32)>)
    ensures
        r is Some <==> pstate_span_found(ranges@),
        r matches Some((lo, hi)) ==> (exists|i: int| 0 <= i < ranges@.len() && (#[trigger] ranges@[i]).0
            == lo) && (exists|i: int| 0 <= i < ranges@.len() && (#[trigger] ranges@[i]).1 == hi) && forall|
            i: int|
            0 <= i < ranges@.len() ==> lo <= (#[trigger] ranges@[i]).0 && ranges@[i].1 <= hi,
{
    let mut lo: u32 = u32::MAX;
    let mut hi: u32 = 0;
    let mut hi_at: Ghost<int> = Ghost(-1);
    let mut lo_at: Ghost<int> = Ghost(-1);
    let mut i: usize = 0;
    while i < ranges.len()
        invariant
            i <= ranges@.len(),
            forall|q: int| 0 <= q < i ==> lo <= (#[trigger] ranges@[q]).0 && ranges@[q].1 <= hi,
            lo < u32::MAX ==> 0 <= lo_at@ < i && ranges@[lo_at@].0 == lo,
            lo == u32::MAX ==> forall|q: int| 0 <= q < i ==> (#[trigger] ranges@[q]).0 == u32::MAX,
            hi > 0 ==> 0 <= hi_at@ < i && ranges@[hi_at@].1 == hi,
        decreases ranges@.len() - i,
    {
        let (a, b) = ranges[i];
        if a < lo {
            lo = a;
            lo_at = Ghost(i as int);
        }
        if b > hi {
            hi = b;
            hi_at = Ghost(i as int);
        }
        i = i + 1;
    }
    if lo == u32::MAX {
        None
    } else {
        proof {
            if hi == 0 {
                assert(ranges@[lo_at@].1 == 0);
                assert(exists|q: int| 0 <= q < ranges@.len() && (#[trigger] ranges@[q]).1 == hi) by {
                    assert(ranges@[lo_at@].1 == hi);
                }
            }
        }
        Some((lo, hi))
    }
}

} // verus!
