[package]
name = "crossfury"
version = "0.1.0"
edition = "2021"
publish = false

[dependencies]
regex = "1"
uuid = { version = "1", features = ["v4"] }
serde = { version = "1", features = ["derive"] }
serde_json = "1"
rust_decimal = "1"
tokio = { version = "1", features = ["full"] }
chrono = { version = "0.4", features = ["serde"] }
toml = "0.8"
thiserror = "1"
log = "0.4"
async-trait = "0.1"
futures = "0.3"
futures-util = "0.3"
tokio-tungstenite = "0.21"
rand = "0.8"
simd-json = "0.13"
csv = "1"
reqwest = { version = "0.11", default-features = false }
