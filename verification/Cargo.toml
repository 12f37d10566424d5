[package]
name = "webhook_sender"
version = "0.1.0"
edition = "2021"
publish = false

[dependencies]
log = "=0.4.34"
reqwest = "=0.12.28"

[dev-dependencies]
serde = "=1.0.229"
serde_json = "=1.0.154"
