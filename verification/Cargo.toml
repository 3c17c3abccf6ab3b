[package]
name = "input_diagnostics"
version = "0.1.0"
edition = "2021"
publish = false

[dependencies]
color-eyre = "0.6"
crossbeam-channel = "0.5"
evdev = "0.13"
once_cell = "1"
ratatui = "0.29"
serialport = { version = "4", default-features = false }
