[package]
name = "alphamon-rs"
version = "0.1.0"
edition = "2021"

[dependencies]
hidapi = { version = "=2.6.7", default-features = false, features = ["linux-native-basic-udev"] }
log = "=0.4.34"
serde = { version = "=1.0.229", features = ["derive"] }
serialport = { version = "=4.10.1", default-features = false }
thiserror = "=1.0.69"
tokio = { version = "=1.54.1", features = ["time"] }
