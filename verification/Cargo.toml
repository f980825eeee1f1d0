[package]
name = "omnipaxos_kv"
version = "0.1.0"
edition = "2021"
publish = false

[dependencies]
rand = "0.8"
axum = "0.7"
tokio = { version = "1", features = ["full"] }
serde = { version = "1", features = ["derive"] }
serde_json = "1"
reqwest = { version = "0.12", default-features = false, features = ["json"] }
clap = { version = "4", features = ["derive"] }
futures = "0.3"
chrono = "0.4"
env_logger = "0.11"
log = "0.4"
omnipaxos = { version = "*", features = ["serde", "macros"] }
omnipaxos_storage = "*"
