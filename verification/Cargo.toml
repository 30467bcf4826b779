[package]
name = "swf_metadata"
version = "0.1.0"
edition = "2021"
publish = false

[dependencies]
flate2 = "*"
lzma-rs = "*"
clap = { version = "*", features = ["derive"] }
walkdir = "*"

[dev-dependencies]
serde_json = "*"
serde_yaml = "*"
