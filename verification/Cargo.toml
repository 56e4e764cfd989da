[package]
name = "expo_server_sdk"
version = "0.1.0"
edition = "2021"
publish = false

[dependencies]
flate2 = "*"
reqwest = { version = "*", default-features = false, features = ["gzip"] }

[dev-dependencies]
serde_json = "*"
