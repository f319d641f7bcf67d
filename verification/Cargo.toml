[package]
name = "esp_csi_tui_rs"
version = "0.1.0"
edition = "2021"
publish = false

[dependencies]
csv = "=1.4.0"
serialport = { version = "=4.10.1", default-features = false }
ratatui = "=0.29.0"
crossterm = "=0.28.1"
chrono = "=0.4.45"
color-eyre = "=0.6.5"
