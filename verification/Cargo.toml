[package]
name = "asiobridge-core"
version = "0.1.0"
edition = "2021"
publish = false

[dependencies]
chrono = "0.4"
ringbuf = "0.4"
cpal = "0.15"
crossbeam-channel = "0.5"
serde = { version = "1", features = ["derive"] }
serde_json = "1"
tracing = "0.1"
tracing-subscriber = { version = "0.3", features = ["env-filter"] }
