[package]
name = "lapsphere"
version = "0.1.0"
edition = "2021"
publish = false

[dependencies]
anyhow = "1"
log = "0.4"
env_logger = "*"
serde = { version = "1", features = ["derive"] }
serde_json = "1"
nvml-wrapper = "*"
once_cell = "1"
libc = "0.2"
libloading = "*"
nix = { version = "*", features = ["ioctl", "signal"] }
systemstat = "*"
tokio = { version = "1", features = ["rt-multi-thread", "macros", "sync", "time", "signal", "process"] }
zbus = "4"
