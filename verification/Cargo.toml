[package]
name = "n42_node"
version = "0.1.0"
edition = "2021"
publish = false

[dependencies]
alloy-consensus = "1"
alloy-eips = "1"
alloy-primitives = { version = "1", features = ["k256"] }
alloy-rlp = "0.3"
alloy-rpc-types-engine = { version = "1", features = ["serde"] }
alloy-signer = "1"
alloy-signer-local = "1"
arc-swap = "1"
async-trait = "0.1"
bincode = "1.3"
blake3 = "1"
bytes = "1"
eyre = "0.6"
hex = "0.4"
metrics = "0.24"
rayon = "1"
serde = { version = "1", features = ["derive"] }
serde_json = "1"
thiserror = "2"
tokio = { version = "1", features = ["full"] }
tracing = "0.1"
zstd = "0.13"
