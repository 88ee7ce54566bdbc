[package]
name = "zec_nam"
version = "0.1.0"
edition = "2021"
publish = false

[dependencies]
anyhow = "1"
bincode = "1.3"
blake2s_simd = "1"
clap = { version = "4", features = ["derive"] }
dirs = "5"
rs_merkle = "1"
serde = { version = "1", features = ["derive"] }
serde_bytes = "0.11"
sled = "0.34"
tokio = { version = "1", features = ["macros", "rt-multi-thread"] }
toml = "0.8"
tracing = "0.1"
tracing-subscriber = "0.3"
