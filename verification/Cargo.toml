[package]
name = "zk_rollup"
version = "0.1.0"
edition = "2021"
publish = false

[dependencies]
k256 = { version = "0.13", features = ["ecdsa"] }
sha2 = "0.10"
sha3 = "0.10"
sparse-merkle-tree = "0.6"
hex = "0.4"
serde = { version = "1", features = ["derive"] }
serde_json = "1"
clap = { version = "4", features = ["derive", "env"] }
anyhow = "1"
tokio = { version = "1", features = ["rt-multi-thread", "macros"] }
url = "2"
env_logger = "0.11"
eyre = "0.6"
