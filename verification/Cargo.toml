[package]
name = "drift-sdk"
version = "2.0.0"
edition = "2021"
publish = false

[dependencies]
serde_json = "1"
ureq = { version = "2", default-features = false }
