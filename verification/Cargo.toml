[package]
name = "telemetry_monitor"
version = "0.1.0"
edition = "2021"
publish = false

[dependencies]
fltk = "1"
ssh2 = "0.9"
