[package]
name = "gossip_chat"
version = "0.1.0"
edition = "2021"
publish = false

[dependencies]
anyhow = "1"
bytes = "1"
data-encoding = "=2.11.1"
iroh-base = "=0.35.0"
iroh-gossip = { version = "=0.35.0", default-features = false }
n0-future = "0.1"
postcard = { version = "=1.1.3", features = ["use-std"] }
rand = "=0.8.8"
serde = { version = "=1.0.229", features = ["derive"] }
serde_json = "1"
tokio = { version = "1", features = ["sync", "time"] }
tracing = "0.1"
tracing-subscriber = "0.3"
