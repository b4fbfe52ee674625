[package]
name = "qcapture"
version = "0.1.0"
edition = "2021"
publish = false

[dependencies]
ab_glyph = "0.2"
anyhow = "1"
chrono = { version = "0.4", default-features = false, features = ["clock"] }
clap = { version = "4", features = ["derive"] }
cpal = "0.18"
ctrlc = "3"
display-info = "0.5"
eframe = { version = "0.33", default-features = false, features = ["default_fonts", "wgpu", "x11"] }
flume = { version = "0.11", default-features = false }
image = { version = "0.25", default-features = false, features = ["png", "jpeg", "bmp"] }
interprocess = "2"
rfd = { version = "0.17", default-features = false, features = ["xdg-portal"] }
serde = { version = "1", features = ["derive"] }
serde_json = "1"
thiserror = "2"
tracing = "0.1"
tracing-subscriber = { version = "0.3", features = ["env-filter"] }
wasapi = "0.22"
windows = { version = "0.62", features = ["Win32_Foundation", "Win32_UI_Input_KeyboardAndMouse", "Win32_UI_WindowsAndMessaging"] }
