[package]
name = "shipper"
version = "0.1.0"
edition = "2021"
publish = false

[dependencies]
backtrace = "0.3"
hex = "=0.4.3"
wyhash = "=0.5.0"
base64 = "=0.21.7"
zip = { version = "=0.6.6", default-features = false, features = ["deflate"] }
tar = "=0.4.46"
serde = { version = "=1.0.229", features = ["derive"] }
serde_json = "=1.0.154"
chrono = "=0.4.45"
tempfile = "=3.27.0"
sysinfo = "=0.29.11"
directories = "=5.0.1"
ureq = "=2.12.1"
