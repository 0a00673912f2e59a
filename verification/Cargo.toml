[package]
name = "wakeupscrew"
version = "0.1.0"
edition = "2021"
publish = false

[dependencies]
actix = "0.10"
actix-broker = "0.3"
actix-rt = "1"
actix-web = { version = "3", default-features = false }
actix-web-actors = "3"
bytes = "0.5"
env_logger = "0.7"
hyper = "0.13"
hyper-tls = "0.4"
log = "0.4"
rand = "0.7"
serde = { version = "1", features = ["derive"] }
serde_json = "1"
