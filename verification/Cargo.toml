[package]
name = "orbit_bluez"
version = "0.1.0"
edition = "2021"
publish = false

[dependencies]
zbus = { version = "5", default-features = false, features = ["tokio"] }
serde = { version = "1", features = ["derive"] }
toml = "0.8"
tokio = { version = "1", features = ["time", "macros", "rt-multi-thread"] }
log = "0.4"
async-channel = "2"
