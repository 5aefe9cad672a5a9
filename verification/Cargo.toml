[package]
name = "pixel_log"
version = "0.1.0"
edition = "2021"

[dependencies]
serde_json = "1"
flate2 = "1"
