[package]
name = "hdr_sdr"
version = "0.1.0"
edition = "2021"
publish = false

[dependencies]
anyhow = "1"
image = { version = "0.24", default-features = false, features = ["png", "jpeg"] }
ndarray = "0.15"
num = "0.4"
