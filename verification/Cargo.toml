[package]
name = "mdns_rr"
version = "0.1.0"
edition = "2021"
publish = false

[dependencies]
libp2p = { version = "0.55", features = ["tokio", "tcp", "noise", "yamux", "quic", "mdns", "identify", "gossipsub", "request-response", "cbor", "macros"] }
libp2p-stream = "0.3.0-alpha"
tokio = { version = "1", features = ["full"] }
tokio-tungstenite = "0.26"
tungstenite = "0.26"
futures-util = { version = "0.3", features = ["sink"] }
futures-channel = "0.3"
serde = { version = "1", features = ["derive"] }
serde_json = "1"
uuid = { version = "1", features = ["v4"] }
axum = { version = "0.8", default-features = false, features = ["json", "query", "tokio", "http1"] }
config = { version = "0.15", default-features = false, features = ["toml"] }
once_cell = "1"
prometheus-client = "0.22"
rdkafka = "0.37"
log = "0.4"
env_logger = { version = "0.11", default-features = false }
tracing-subscriber = { version = "0.3", features = ["env-filter"] }
async-trait = "0.1"
