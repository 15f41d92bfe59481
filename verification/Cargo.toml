[package]
name = "engine_targets"
version = "0.1.0"
edition = "2021"
publish = false

[dependencies]
browserslist-rs = "*"
serde = { version = "*", features = ["derive"] }
serde_json = "*"
url = "*"
ureq = { version = "2", default-features = false }
