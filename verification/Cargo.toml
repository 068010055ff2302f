[package]
name = "tx_spammer"
version = "0.1.0"
edition = "2021"
publish = false

[dependencies]
alloy = { version = "0.8", features = ["providers", "provider-http", "signer-local", "network", "rpc-types", "sol-types", "dyn-abi", "eips", "consensus"] }
eyre = "0.6"
hex = "0.4"
rand = "0.8"
reqwest = { version = "0.12", default-features = false, features = ["json"] }
serde_json = "1"
tokio = { version = "1", features = ["macros", "rt-multi-thread", "time"] }
