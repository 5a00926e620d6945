[package]
name = "networking"
version = "0.1.0"
edition = "2021"
publish = false

[dependencies]
sha2 = "=0.10.9"
getrandom = "=0.2.17"
url = "=2.5.8"
serde = { version = "=1.0.229", features = ["derive"] }
serde_json = "=1.0.154"
parking_lot = "=0.12.5"
tokio = { version = "=1.54.1", features = ["rt", "macros", "sync", "time"] }
ureq = { version = "2", default-features = false }
