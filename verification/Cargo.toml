[package]
name = "rust_edge_compute"
version = "0.1.0"
edition = "2021"
publish = false

[dependencies]
serde = { version = "1", features = ["derive"] }
serde_json = "1"
aes-gcm = "0.10"
argon2 = "0.5"
ring = "0.17"
base64 = "0.21"
hex = "0.4"
uuid = { version = "1", features = ["v4"] }
rand = "0.8"
chrono = "0.4"
tokio = { version = "1", features = ["full"] }
thiserror = "1"
async-trait = "0.1"
fastrand = "2"
tracing = "0.1"
zeromq = "0.4"
axum = "0.7"
candle-core = "0.8"
reqwest = { version = "0.12", default-features = false, features = ["json"] }
