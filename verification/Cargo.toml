[package]
name = "forte_engine"
version = "0.1.0"
edition = "2021"
publish = false

[dependencies]
cgmath = "=0.18.0"
winit = { version = "=0.29.15", default-features = false, features = ["rwh_06", "x11"] }
