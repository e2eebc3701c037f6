[package]
name = "moldau"
version = "0.1.0"
edition = "2021"
publish = false

[dependencies]
base64 = "0.22"
clap = { version = "4", features = ["derive"] }
clap_complete = "*"
etcetera = "*"
flate2 = "*"
p256 = "0.13"
reqwest = { version = "*", default-features = false, features = ["rustls-tls", "json"] }
semver = "1"
serde = { version = "1", features = ["derive"] }
serde_json = "1"
sha1-checked = "*"
sha2 = "0.10"
tar = "*"
tempdir = "*"
tokio = { version = "1", features = ["rt-multi-thread", "macros", "fs", "process", "io-util"] }
