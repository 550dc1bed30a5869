[package]
name = "alex_sdk"
version = "0.1.0"
edition = "2021"
publish = false

[dependencies]
sha2 = "0.10"
hex = "0.4"
serde = { version = "1", features = ["derive"] }
serde_json = "1"
flate2 = "1"
tar = "0.4"
tempfile = "3"
thiserror = "2"
anyhow = "1"
clap = { version = "4", features = ["derive"] }
ureq = { version = "3", default-features = false }
