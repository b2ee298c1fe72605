[package]
name = "ichi"
version = "0.1.0"
edition = "2021"
publish = false

[dependencies]
serde = { version = "1", features = ["derive"] }
serde_json = "1"
objc2 = "0.6"
objc2-foundation = "0.3"
objc2-app-kit = "0.3"
objc2-service-management = "0.3"
accessibility-sys = "*"
core-foundation = "0.10"
core-foundation-sys = "0.8"
