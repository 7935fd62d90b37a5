[package]
name = "interference_analyzer"
version = "0.1.0"
edition = "2021"
publish = false

[dependencies]
image = { version = "0.25", default-features = false, features = ["png", "jpeg"] }
chrono = "0.4"
anyhow = "1"
egui = "0.22"
egui_extras = "0.22"
egui-notify = "0.8"
env_logger = { version = "0.10", default-features = false }
