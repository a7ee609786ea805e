[package]
name = "cluster_runtime"
version = "0.1.0"
edition = "2021"
publish = false

[dependencies]
serde = { version = "1", features = ["derive"] }
serde_json = "1"
rand = "0.8"
uuid = { version = "1", features = ["v4"] }
chrono = "0.4"
hmac = "0.12"
sha2 = "0.10"
hex = "0.4"
tokio = { version = "1", features = ["full"] }
parking_lot = "0.12"
toml = "0.8"
thiserror = "1"
log = "0.4"
env_logger = "0.11"
bytes = "1"
futures = "0.3"
async-trait = "0.1"
libloading = "0.8"
