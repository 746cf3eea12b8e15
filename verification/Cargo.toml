[package]
name = "copperforge-core"
version = "0.1.0"
edition = "2021"
publish = false

[dependencies]
chrono = "=0.4.45"
chrono-tz = "=0.10.4"
egui = "=0.36.2"
egui_dock = "=0.21.1"
gerber_viewer = "=0.8.0"
nalgebra = "=0.35.0"
serde = { version = "=1.0.229", features = ["derive"] }
