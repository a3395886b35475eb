[package]
name = "vectordb"
version = "0.1.0"
edition = "2021"
publish = false

[dependencies]
anyhow = "=1.0.104"
async-stream = "=0.3.6"
async-trait = "=0.1.92"
axum = "=0.8.9"
bincode = "=1.3.3"
chrono = "=0.4.45"
dashmap = "=6.2.1"
etcetera = "=0.8.0"
farmhash = "=1.1.5"
futures = "=0.3.34"
hnsw_rs = "=0.3.5"
r2d2 = "=0.8.10"
r2d2_sqlite = "=0.25.0"
regex = "=1.13.1"
reqwest = { version = "=0.12.28", default-features = false, features = ["json", "stream"] }
rmcp = { version = "=0.6.4", features = ["schemars"] }
rusqlite = { version = "=0.32.1", features = ["bundled"] }
serde = { version = "=1.0.229", features = ["derive"] }
serde_json = "=1.0.154"
tokio = { version = "=1.54.1", features = ["full"] }
tokio-stream = "=0.1.19"
tokio-util = { version = "=0.7.20", features = ["codec", "io"] }
tracing = "=0.1.44"
url = "=2.5.8"
