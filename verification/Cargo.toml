[package]
name = "gpslog"
version = "0.1.0"
edition = "2021"
publish = false

[dependencies]
anyhow = "1"
chrono = { version = "0.4", default-features = false, features = ["std"] }
zip = { version = "0.6", default-features = false, features = ["deflate"] }
