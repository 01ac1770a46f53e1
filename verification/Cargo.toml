[package]
name = "keyring"
version = "0.1.0"
edition = "2021"
publish = false

[dependencies]
anyhow = "1"
async-trait = "0.1"
bincode = "1"
blake3 = "1"
chrono = { version = "0.4", features = ["serde"] }
clap = { version = "4", features = ["derive"] }
directories = "5"
ed25519-dalek = { version = "2", features = ["rand_core"] }
hex = "0.4"
quinn = "0.11"
rand = "0.8"
rcgen = "0.13"
redb = "2"
rustls = { version = "0.23", default-features = false, features = ["ring", "std", "logging"] }
serde = { version = "1", features = ["derive"] }
serde_json = "1"
tokio = { version = "1", features = ["full"] }
toml = "0.8"
tracing = "0.1"
tracing-subscriber = { version = "0.3", features = ["env-filter"] }
uuid = { version = "1", features = ["v4", "serde"] }
