[package]
name = "mirror_align"
version = "0.1.0"
edition = "2021"
publish = false

[dependencies]
anyhow = "=1.0.104"
chrono = "=0.4.45"
clap = { version = "=4.6.7", features = ["derive"] }
ctrlc = "=3.5.2"
fs-err = "=3.3.2"
polyfit-rs = "=0.2.2"
serde = { version = "=1.0.229", features = ["derive"] }
serde_json = "=1.0.151"
serialport = { version = "=4.10.1", default-features = false }
toml = "=1.1.7"
