//! Decision logic of a laptop hardware-control daemon: which sysfs writes are
//! permitted, how polling intervals are derived, when a discrete GPU may be
//! queried, how adapters are identified, and how device text is parsed.
pub mod text;
pub mod sysfs_guard;
pub mod poll_settings;
pub mod gpu_tier;
pub mod cold_power;
pub mod gpu_activity;
pub mod device_text;
pub mod cpu_control;
pub mod types;
pub mod keyboard;
pub mod devices;
pub mod scheduler;
pub mod cpu_info;
pub mod gpu_names;
pub mod fan_curve;
pub mod overclock;
pub mod gamepad;
pub mod detection;
pub mod vram;
pub mod wifi;
pub mod fan_info;
pub mod profile;
pub mod cpu_facts;
pub mod keyboard_paths;
pub mod screen;
pub mod memory;
pub mod prime;
pub mod gpu_holders;
pub mod storage;
pub mod gpu_clocks;
pub mod nvidia_meta;
pub mod wifi_link;
pub mod nvapi;
pub mod battery_info;
pub mod power_sources;
