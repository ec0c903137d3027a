[package]
name = "lotus_sign"
version = "0.1.0"
edition = "2021"
publish = false

[dependencies]
aes-gcm = "0.10"
anyhow = "1"
base64 = "0.22"
blake2b_simd = "1"
blst = "0.3"
chrono = "0.4"
ciborium = "0.2"
clap = { version = "4", features = ["derive"] }
hex = "0.4"
num-bigint = "0.4"
rand = "0.8"
reqwest = { version = "0.12", default-features = false, features = ["json"] }
rusqlite = { version = "0.31", features = ["bundled"] }
secp256k1 = { version = "0.29", features = ["rand", "recovery"] }
serde = { version = "1", features = ["derive"] }
serde_json = "1"
sha2 = "0.10"
tokio = { version = "1", features = ["rt-multi-thread", "macros"] }
toml = "0.8"
tracing-subscriber = "0.3"
