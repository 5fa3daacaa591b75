[package]
name = "remote_trackpad_backend"
version = "0.1.0"
edition = "2021"
publish = false

[dependencies]
anyhow = "1"
tokio = { version = "1", features = ["rt-multi-thread", "net", "io-util", "time", "signal", "macros"] }
enigo = "0.6"
local-ip-address = "0.6"
tray-icon = "0.26"
eframe = { version = "0.37", default-features = false, features = ["glow", "x11"] }
