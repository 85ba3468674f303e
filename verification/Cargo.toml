[package]
name = "soundcloud2mp4"
version = "0.1.0"
edition = "2021"
publish = false

[dependencies]
anyhow = "=1.0.104"
dirs = "=6.0.0"
eframe = { version = "=0.31.1", default-features = false, features = ["default_fonts", "glow", "x11"] }
egui = "=0.31.1"
egui_extras = { version = "=0.31.1", default-features = false, features = ["image"] }
image = { version = "=0.25.10", default-features = false, features = ["png", "jpeg"] }
open = "=5.4.5"
rfd = "=0.15.4"
serde = { version = "=1.0.229", features = ["derive"] }
serde_json = "=1.0.154"
tokio = { version = "=1.54.1", features = ["full"] }
tokio-util = "=0.7.20"
tracing = "=0.1.44"
tracing-subscriber = { version = "=0.3.23", features = ["env-filter"] }
