[package]
name = "wh_broker"
version = "0.1.0"
edition = "2021"
publish = false

[dependencies]
regex = "1"
crc32fast = "1"
chrono = "0.4"
sha2 = "0.10"
uuid = { version = "1", features = ["v4"] }
serde = { version = "1", features = ["derive"] }
serde_json = "1"
serde_yaml = "0.9"
thiserror = "2"
tokio = { version = "1", features = ["full"] }
tokio-util = "0.7"
tracing = "0.1"
tracing-subscriber = { version = "0.3", features = ["env-filter", "json"] }
anyhow = "1"
async-trait = "0.1"
prost = "0.13"
rusqlite = { version = "0.32", features = ["bundled"] }
zeromq = "0.4"

[dev-dependencies]
tempfile = "3"
