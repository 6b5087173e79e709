[package]
name = "dmx_console"
version = "0.1.0"
edition = "2021"
publish = false

[dependencies]
crossbeam-channel = "=0.5.17"
eframe = { version = "=0.37.0", default-features = false, features = ["glow", "x11", "default_fonts"] }
egui = { version = "=0.37.0", default-features = false }
lofty = "=0.25.4"
open_dmx = "=1.1.1"
parking_lot = "=0.12.5"
rodio = "=0.23.0"
rosc = "=0.11.4"
serde = { version = "=1.0.229", features = ["derive"] }
strum = { version = "=0.28.0", features = ["derive"] }
thiserror = "=2.0.21"
tokio = { version = "=1.54.1", features = ["rt-multi-thread", "macros"] }
tween = "=2.2.0"

[dev-dependencies]
scan_fmt = "=0.2.6"
