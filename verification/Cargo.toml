[package]
name = "equzx"
version = "2026.8.13"
edition = "2021"
publish = false

[dependencies]
base64 = "=0.22.1"
serde = { version = "=1.0.229", features = ["derive"] }
serde_json = "=1.0.154"
crossbeam = "=0.8.5"
keyboard-types = "=0.6.2"
raw-window-handle = "=0.5.2"
baseview = "=0.1.4"
egui = { version = "=0.34.3", default-features = false, features = ["default_fonts"] }
egui_glow = "=0.34.3"
nih_plug_core = "=0.1.2"
nih_plug_egui = "=0.1.2"
