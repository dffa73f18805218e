//! Settings and device descriptions shared by the daemon and its GUI.
use vstd::prelude::*;

verus! {

/// System-level identification and kernel information.
#[derive(Debug, Clone, PartialEq)]
pub struct SystemInfo {
    pub product_name: String,
    pub product_sku: String,
    pub manufacturer: String,
    pub board_name: String,
    pub bios_version: String,
    /// Loaded kernel modules as a single concatenated string.
    pub kernel_modules: String,
}

/// A single log line captured by the daemon for GUI display.
#[derive(Debug, Clone, PartialEq)]
pub struct LogEntry {
    pub level: String,
    pub target: String,
    pub message: String,
    /// RFC3339 timestamp.
    pub timestamp: String,
}

/// Which CPU control interfaces exist on this machine.
#[derive(Debug, Clone, Copy, PartialEq, Eq, Structural)]
pub struct CpuCapabilities {
    pub has_boost: bool,
    pub has_cpuinfo_max_freq: bool,
    pub has_cpuinfo_min_freq: bool,
    pub has_scaling_driver: bool,
    pub has_energy_performance_preference: bool,
    pub has_scaling_governor: bool,
    pub has_smt: bool,
    pub has_scaling_min_freq: bool,
    pub has_scaling_max_freq: bool,
    pub has_available_governors: bool,
    pub has_amd_pstate: bool,
    pub has_intel_pstate: bool,
}

/// GPU classification: integrated (iGPU) or discrete (dGPU).
#[derive(Debug, Clone, Copy, PartialEq, Eq, Structural)]
pub enum GpuType {
    Integrated,
    Discrete,
}

/// Gamepad connection state.
#[derive(Debug, Clone, Copy, PartialEq, Eq, Structural)]
pub enum GamepadStatus {
    Connected,
    Disconnected,
}

impl Default for GamepadStatus {
    fn default() -> (r: Self)
        ensures
            r == GamepadStatus::Disconnected,
    {
        GamepadStatus::Disconnected
    }
}

/// Physical transport type of a gamepad.
#[derive(Debug, Clone, Copy, PartialEq, Eq, Structural)]
pub enum ConnectionType {
    Wired,
    Wireless,
    Unknown,
}

impl Default for ConnectionType {
    fn default() -> (r: Self)
        ensures
            r == ConnectionType::Unknown,
    {
        ConnectionType::Unknown
    }
}

/// Battery/charging state of a wireless gamepad.
#[derive(Debug, Clone, Copy, PartialEq, Eq, Structural)]
pub enum PowerStatus {
    Charging,
    Discharging,
    Full,
    Unknown,
}

impl Default for PowerStatus {
    fn default() -> (r: Self)
        ensures
            r == PowerStatus::Unknown,
    {
        PowerStatus::Unknown
    }
}

/// A connected or remembered gamepad.
#[derive(Debug, Clone, PartialEq)]
pub struct GamepadInfo {
    pub name: String,
    /// Kernel input device id (e.g. "input0").
    pub id: String,
    /// Stable unique identifier.
    pub uid: String,
    pub status: GamepadStatus,
    /// Battery level 0-100, when reported.
    pub battery_level: Option<u8>,
    pub connection_type: ConnectionType,
    pub power_status: PowerStatus,
}

impl Default for GamepadInfo {
    fn default() -> (r: Self)
        ensures
            r.name@.len() == 0,
            r.id@.len() == 0,
            r.uid@.len() == 0,
            r.status == GamepadStatus::Disconnected,
            r.battery_level is None,
            r.connection_type == ConnectionType::Unknown,
            r.power_status == PowerStatus::Unknown,
    {
        GamepadInfo {
            name: String::new(),
            id: String::new(),
            uid: String::new(),
            status: GamepadStatus::Disconnected,
            battery_level: None,
            connection_type: ConnectionType::Unknown,
            power_status: PowerStatus::Unknown,
        }
    }
}

/// CPU tuning knobs of a profile.
#[derive(Debug, Clone, PartialEq)]
pub struct CpuSettings {
    pub governor: Option<String>,
    pub min_frequency: Option<u64>,
    pub max_frequency: Option<u64>,
    pub boost: Option<bool>,
    pub smt: Option<bool>,
    pub performance_profile: Option<String>,
    pub tdp_profile: Option<String>,
    pub energy_performance_preference: Option<String>,
    pub tdp: Option<u32>,
    pub tdp0: Option<u32>,
    pub tdp1: Option<u32>,
    pub tdp2: Option<u32>,
    pub amd_pstate_status: Option<String>,
    pub intel_pstate_status: Option<String>,
}

impl Default for CpuSettings {
    /// Nothing set: a profile that leaves the CPU alone.
    fn default() -> (r: Self)
        ensures
            r.governor is None && r.min_frequency is None && r.max_frequency is None,
            r.boost is None && r.smt is None && r.performance_profile is None,
            r.tdp_profile is None && r.energy_performance_preference is None,
            r.tdp is None && r.tdp0 is None && r.tdp1 is None && r.tdp2 is None,
            r.amd_pstate_status is None && r.intel_pstate_status is None,
    {
        CpuSettings {
            governor: None,
            min_frequency: None,
            max_frequency: None,
            boost: None,
            smt: None,
            performance_profile: None,
            tdp: None,
            amd_pstate_status: None,
            intel_pstate_status: None,
            tdp_profile: None,
            energy_performance_preference: None,
            tdp0: None,
            tdp1: None,
            tdp2: None,
        }
    }
}

/// Manual speed of one NVIDIA fan.
#[derive(Debug, Clone, Copy, PartialEq, Eq, Structural)]
pub struct NvidiaFanSettings {
    pub device_index: u32,
    pub fan_id: u32,
    /// Target speed in percent.
    pub speed: u32,
    pub manual: bool,
}

impl Default for NvidiaFanSettings {
    fn default() -> (r: Self)
        ensures
            r.device_index == 0 && r.fan_id == 0 && r.speed == 0 && !r.manual,
    {
        NvidiaFanSettings { device_index: 0, fan_id: 0, speed: 0, manual: false }
    }
}

/// Bounds of the advanced GPU tuning controls.
#[derive(Debug, Clone, Copy, PartialEq, Eq, Structural)]
pub struct GpuAdvancedSettings {
    pub temperature_min: i32,
    pub temperature_max: i32,
    pub plimit_min: i32,
    pub plimit_max: i32,
    pub frequency_min: i32,
    pub frequency_max: i32,
    pub freq_offset_max: i32,
    pub freq_offset_min: i32,
    pub low_freq_min: i32,
    pub low_freq_max: i32,
    pub drain_offset_lmin: i32,
    pub drain_offset_lmax: i32,
    pub high_freq_min: i32,
    pub high_freq_max: i32,
    pub drain_offset_hmin: i32,
    pub drain_offset_hmax: i32,
    pub critical_temp_min: i32,
    pub critical_temp_max: i32,
    pub power_offset_max: i32,
    pub power_offset_min: i32,
    pub drain_offset_control: bool,
    pub power_offset_control: bool,
    pub critical_temp_range_control: bool,
    /// Smart rounding threshold for frequency steps.
    pub smart_rounding_threshold: i32,
}

/// The smart rounding threshold a configuration without one gets.
pub fn default_smart_rounding_threshold() -> (r: i32)
    ensures
        r == 15,
{
    15
}

impl Default for GpuAdvancedSettings {
    fn default() -> (r: Self)
        ensures
            r == (GpuAdvancedSettings {
                temperature_min: 20,
                temperature_max: 80,
                plimit_min: 20,
                plimit_max: 120,
                frequency_min: 900,
                frequency_max: 1800,
                freq_offset_max: 300,
                freq_offset_min: 150,
                low_freq_min: 1000,
                low_freq_max: 1440,
                drain_offset_lmin: -30i32,
                drain_offset_lmax: 0,
                high_freq_min: 1440,
                high_freq_max: 1800,
                drain_offset_hmin: 0,
                drain_offset_hmax: 15,
                critical_temp_min: 48,
                critical_temp_max: 61,
                power_offset_max: 35,
                power_offset_min: 0,
                drain_offset_control: false,
                power_offset_control: false,
                critical_temp_range_control: false,
                smart_rounding_threshold: 15,
            }),
    {
        GpuAdvancedSettings {
            temperature_min: 20,
            temperature_max: 80,
            plimit_min: 20,
            plimit_max: 120,
            frequency_min: 900,
            frequency_max: 1800,
            freq_offset_max: 300,
            freq_offset_min: 150,
            low_freq_min: 1000,
            low_freq_max: 1440,
            drain_offset_lmin: -30,
            drain_offset_lmax: 0,
            high_freq_min: 1440,
            high_freq_max: 1800,
            drain_offset_hmin: 0,
            drain_offset_hmax: 15,
            critical_temp_min: 48,
            critical_temp_max: 61,
            power_offset_max: 35,
            power_offset_min: 0,
            drain_offset_control: false,
            power_offset_control: false,
            critical_temp_range_control: false,
            smart_rounding_threshold: default_smart_rounding_threshold(),
        }
    }
}

/// Keyboard backlight type.
#[derive(Debug, Clone, Copy, PartialEq, Eq, Structural)]
pub enum KeyboardType {
    /// No backlight.
    NoBacklight,
    WhiteOnly,
    SingleZoneRGB,
    ThreeZoneRGB,
    FourZoneRGB,
    PerKeyRGB,
}

/// Keyboard capabilities the daemon reports.
#[derive(Debug, Clone, Copy, PartialEq, Eq, Structural)]
pub struct KeyboardCapabilities {
    pub keyboard_type: KeyboardType,
    pub supports_brightness: bool,
    pub supports_color: bool,
    pub supports_effects: bool,
    pub num_zones: u32,
}

/// Single RGB zone color.
#[derive(Debug, Clone, Copy, PartialEq, Eq, Structural)]
pub struct ZoneColor {
    pub r: u8,
    pub g: u8,
    pub b: u8,
}

/// Keyboard backlight mode / effect (effect ids: custom 0, breathe 1,
/// cycle 2, dance 3, flash 4, random color 5, tempo 6, wave 7).
#[derive(Debug, Clone, PartialEq)]
pub enum KeyboardMode {
    SingleColor { r: u8, g: u8, b: u8, brightness: u8 },
    MultipleZones { zones: Vec<ZoneColor>, brightness: u8 },
    PerKeyRGB { keys: Vec<ZoneColor>, brightness: u8 },
    Breathe { r: u8, g: u8, b: u8, brightness: u8, speed: u8 },
    Cycle { brightness: u8, speed: u8 },
    Dance { brightness: u8, speed: u8 },
    Flash { r: u8, g: u8, b: u8, brightness: u8, speed: u8 },
    RandomColor { brightness: u8, speed: u8 },
    Tempo { brightness: u8, speed: u8 },
    Wave { brightness: u8, speed: u8 },
}

/// Keyboard backlight control settings.
#[derive(Debug, Clone, PartialEq)]
pub struct KeyboardSettings {
    pub control_enabled: bool,
    pub mode: KeyboardMode,
}

impl Default for KeyboardSettings {
    /// Control off; white at half brightness.
    fn default() -> (r: Self)
        ensures
            !r.control_enabled,
            r.mode == (KeyboardMode::SingleColor { r: 255, g: 255, b: 255, brightness: 50 }),
    {
        KeyboardSettings {
            control_enabled: false,
            mode: KeyboardMode::SingleColor { r: 255, g: 255, b: 255, brightness: 50 },
        }
    }
}

/// Screen brightness settings.
#[derive(Debug, Clone, Copy, PartialEq, Eq, Structural)]
pub struct ScreenSettings {
    /// Brightness in percent of the panel's maximum.
    pub brightness: u8,
    /// Leave brightness to the desktop.
    pub system_control: bool,
}

impl Default for ScreenSettings {
    fn default() -> (r: Self)
        ensures
            r.brightness == 50 && r.system_control,
    {
        ScreenSettings { brightness: 50, system_control: true }
    }
}

/// One fan's temperature -> speed curve.
#[derive(Debug, Clone, PartialEq)]
pub struct FanCurve {
    pub fan_id: u32,
    /// (temperature in °C, speed in %) control points.
    pub points: Vec<(u8, u8)>,
}

/// Fan curve configuration.
#[derive(Debug, Clone, PartialEq)]
pub struct FanSettings {
    pub control_enabled: bool,
    pub curves: Vec<FanCurve>,
}

impl Default for FanSettings {
    fn default() -> (r: Self)
        ensures
            !r.control_enabled,
            r.curves@.len() == 0,
    {
        FanSettings { control_enabled: false, curves: Vec::new() }
    }
}

/// Battery charge threshold settings.
#[derive(Debug, Clone, Copy, PartialEq, Eq, Structural)]
pub struct BatterySettings {
    pub control_enabled: bool,
    /// Start charging below this percentage.
    pub charge_start_threshold: u8,
    /// Stop charging at this percentage.
    pub charge_end_threshold: u8,
}

impl Default for BatterySettings {
    fn default() -> (r: Self)
        ensures
            !r.control_enabled && r.charge_start_threshold == 40 && r.charge_end_threshold == 80,
    {
        BatterySettings { control_enabled: false, charge_start_threshold: 40, charge_end_threshold: 80 }
    }
}

/// UI font size preset.
#[derive(Debug, Clone, Copy, PartialEq, Eq, Structural)]
pub enum FontSize {
    Small,
    Medium,
    Large,
}

/// Application color theme.
#[derive(Debug, Clone, Copy, PartialEq, Eq, Structural)]
pub enum Theme {
    Auto,
    Light,
    Dark,
}

/// Which statistics sections the GUI shows and their polling intervals (ms).
#[derive(Debug, Clone, PartialEq)]
pub struct StatisticsSections {
    pub show_system_info: bool,
    pub show_cpu: bool,
    pub show_memory: bool,
    pub show_gpu: bool,
    pub show_battery: bool,
    pub show_wifi: bool,
    pub show_storage: bool,
    pub show_fans: bool,
    pub show_gamepads: bool,
    /// Display order of sections.
    pub section_order: Vec<String>,
    pub cpu_poll_rate: u64,
    pub memory_poll_rate: u64,
    pub gpu_poll_rate: u64,
    pub battery_poll_rate: u64,
    pub wifi_poll_rate: u64,
    pub storage_poll_rate: u64,
    pub fans_poll_rate: u64,
    pub gamepad_poll_rate: u64,
    pub gpu_overclock_poll_rate: u64,
}

/// Polling interval of the GPU overclock job when none is configured (ms).
pub fn default_gpu_overclock_poll_rate() -> (r: u64)
    ensures
        r == 1000,
{
    1000
}

/// Polling interval of the memory section when none is configured (ms).
pub fn default_memory_poll_rate() -> (r: u64)
    ensures
        r == 1000,
{
    1000
}

/// Polling interval of the gamepad section when none is configured (ms).
pub fn default_gamepad_poll_rate() -> (r: u64)
    ensures
        r == 5000,
{
    5000
}

/// Whether the memory section is shown when not configured.
pub fn default_show_memory() -> (r: bool)
    ensures
        r,
{
    true
}

/// Whether the gamepad section is shown when not configured.
pub fn default_show_gamepads() -> (r: bool)
    ensures
        r,
{
    true
}

/// How many log lines the GUI keeps when not configured.
pub fn default_log_limit() -> (r: usize)
    ensures
        r == 100,
{
    100
}

/// Whether trace logging is on when not configured.
pub fn default_log_filter_trace() -> (r: bool)
    ensures
        !r,
{
    false
}

/// The default order of the statistics sections.
pub open spec fn default_section_order() -> Seq<Seq<char>> {
    seq![
        "SystemInfo"@,
        "CPU"@,
        "Memory"@,
        "GPU"@,
        "Battery"@,
        "WiFi"@,
        "Storage"@,
        "Fans"@,
        "Gamepads"@,
    ]
}

impl Default for StatisticsSections {
    /// Every section shown, in the default order; CPU, memory and fans every
    /// second, GPU every two seconds, battery, WiFi, storage and gamepads
    /// every five, GPU overclock every second.
    fn default() -> (r: Self)
        ensures
            r.show_system_info && r.show_cpu && r.show_memory && r.show_gpu && r.show_battery,
            r.show_wifi && r.show_storage && r.show_fans && r.show_gamepads,
            r.section_order@.map_values(|s: String| s@) == default_section_order(),
            r.cpu_poll_rate == 1000 && r.memory_poll_rate == 1000 && r.gpu_poll_rate == 2000,
            r.battery_poll_rate == 5000 && r.wifi_poll_rate == 5000 && r.storage_poll_rate == 5000,
            r.fans_poll_rate == 1000 && r.gamepad_poll_rate == 5000 && r.gpu_overclock_poll_rate
                == 1000,
    {
        let mut order: Vec<String> = Vec::new();
        order.push("SystemInfo".to_owned());
        order.push("CPU".to_owned());
        order.push("Memory".to_owned());
        order.push("GPU".to_owned());
        order.push("Battery".to_owned());
        order.push("WiFi".to_owned());
        order.push("Storage".to_owned());
        order.push("Fans".to_owned());
        order.push("Gamepads".to_owned());
        proof {
            assert(order@.map_values(|s: String| s@) =~= default_section_order());
        }
        StatisticsSections {
            show_system_info: true,
            show_cpu: true,
            show_memory: default_show_memory(),
            show_gpu: true,
            show_battery: true,
            show_wifi: true,
            show_storage: true,
            show_fans: true,
            show_gamepads: default_show_gamepads(),
            section_order: order,
            cpu_poll_rate: 1000,
            memory_poll_rate: default_memory_poll_rate(),
            gpu_poll_rate: 2000,
            battery_poll_rate: 5000,
            wifi_poll_rate: 5000,
            storage_poll_rate: 5000,
            fans_poll_rate: 1000,
            gamepad_poll_rate: default_gamepad_poll_rate(),
            gpu_overclock_poll_rate: default_gpu_overclock_poll_rate(),
        }
    }
}

} // verus!
