[package]
name = "spectrum_ares"
version = "0.1.0"
edition = "2021"
publish = false

[dependencies]
ctrlc = "3"
pipewire = "0.9"
rustfft = "6"
