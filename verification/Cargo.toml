[package]
name = "corestate"
version = "0.1.0"
edition = "2021"
publish = false

[dependencies]
anyhow = "1"
blake3 = { version = "1", features = ["pure"] }
brotli = "*"
flate2 = "1"
futures-util = "0.3"
lz4 = "1"
prost = "*"
reed-solomon-erasure = "*"
serde = { version = "1", features = ["derive"] }
serde_json = "1"
tokio = { version = "1", features = ["full"] }
tokio-tungstenite = "*"
toml = "*"
tonic = "*"
tracing = "0.1"
tracing-subscriber = { version = "0.3", features = ["env-filter"] }
uuid = { version = "1", features = ["v4"] }
xz2 = "0.1"
zstd = "*"
