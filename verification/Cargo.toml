[package]
name = "helios_benchmark"
version = "0.1.0"
edition = "2021"
publish = false

[dependencies]
alloy-primitives = { version = "=1.7.3", features = ["serde"] }
anyhow = "=1.0.104"
bincode = "=1.3.3"
clap = { version = "=4.6.7", features = ["derive"] }
csv = "=1.4.0"
ethereum_ssz = "=0.9.1"
serde = { version = "=1.0.229", features = ["derive"] }
serde_cbor = "=0.11.2"
sp1-zkvm = "=6.10.0"
tokio = { version = "=1.54.1", features = ["macros", "rt-multi-thread"] }
tracing = "=0.1.44"
tracing-subscriber = { version = "=0.3.23", features = ["env-filter"] }
tree_hash = "=0.10.0"
