[package]
name = "crates_io_api"
version = "0.12.0"
edition = "2021"
publish = false

[dependencies]
chrono = { version = "0.4", features = ["serde"] }
futures = "0.3"
log = "0.4"
reqwest = { version = "0.12", default-features = false, features = ["blocking", "json", "rustls-tls"] }
semver = "1"
serde = "1"
serde_derive = "1"
serde_json = "1"
tokio = { version = "1", features = ["sync", "time"] }
url = "2"
