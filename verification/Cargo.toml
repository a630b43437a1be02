[package]
name = "synth_bridge"
version = "0.1.0"
edition = "2021"
publish = false

[dependencies]
time = "0.1"
coremidi = "0.3"
coreaudio-rs = "0.8"
