[package]
name = "lighter_client"
version = "0.1.0"
edition = "2021"
publish = false

[dependencies]
alloy-signer = "*"
alloy-signer-local = "*"
anyhow = "1"
async-trait = "0.1"
futures-util = "0.3"
libloading = "0.8"
rand = "0.8"
ringbuffer = "0.15"
serde = { version = "1", features = ["derive"] }
serde_json = "1"
thiserror = "1"
time = "0.3"
tokio = { version = "1", features = ["full"] }
tokio-tungstenite = "0.21"
toml = "0.8"
tracing = "0.1"
url = "2"
