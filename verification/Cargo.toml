[package]
name = "omniprobe"
version = "0.1.0"
edition = "2021"
publish = false

[dependencies]
base64 = "=0.22.1"
chrono = "=0.4.45"
object = { version = "=0.36.7", features = ["write"] }
directories = "5"
env_logger = "0.11"
log = "0.4"
nusb = "=0.1.14"
probe-rs = "=0.27.0"
parking_lot = "0.12"
serde = { version = "1", features = ["derive"] }
serde_json = "1"
serialport = "4"
tokio = { version = "1", features = ["rt-multi-thread", "time", "macros"] }
zip = "2"
