[package]
name = "spectro_cam_rs"
version = "0.1.0"
edition = "2021"
publish = false

[dependencies]
biquad = "=0.6.0"
csv = "=1.4.0"
eframe = { version = "=0.32.3", default-features = false, features = ["default_fonts", "glow", "persistence", "x11"] }
egui = { version = "=0.32.3", default-features = false }
egui_plot = { version = "=0.33.0", default-features = false }
env_logger = { version = "=0.11.11", default-features = false }
flume = { version = "=0.12.0", default-features = false }
image = { version = "=0.25.10", default-features = false }
jiff = { version = "=0.2.38", default-features = false, features = ["std", "serde"] }
log = "=0.4.34"
nokhwa = { version = "=0.10.11", features = ["output-threaded"] }
physical_constants = "=0.5.0"
serde = { version = "=1.0.229", features = ["derive"] }
serde_json = "=1.0.154"
