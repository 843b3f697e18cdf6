[package]
name = "storage_layout"
version = "0.1.0"
edition = "2021"
publish = false

[dependencies]
libsecp256k1 = "0.7"
sha3 = "0.10"
blake2 = "0.10"

[dev-dependencies]
serde_json = "1"
