[package]
name = "lapsphere"
version = "0.1.0"
edition = "2021"
publish = false

[dependencies]
anyhow = "1"
chrono = { version = "0.4", default-features = false, features = ["clock"] }
eframe = { version = "0.34", default-features = false, features = ["glow", "x11"] }
egui = { version = "0.34", default-features = false }
env_logger = { version = "0.11", default-features = false }
libc = "0.2"
log = "0.4"
mimalloc = { version = "0.1", default-features = false }
nix = { version = "0.29", features = ["ioctl", "signal"] }
nvml-wrapper = "*"
once_cell = "1"
serde = { version = "1", features = ["derive"] }
serde_json = "1"
tokio = { version = "1", features = ["rt-multi-thread", "macros", "signal", "process", "sync", "time"] }
ureq = { version = "2", default-features = false, features = ["tls", "json"] }
zbus = { version = "5", default-features = false, features = ["tokio"] }
