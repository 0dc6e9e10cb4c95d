[package]
name = "aura"
version = "0.1.0"
edition = "2021"
publish = false

[dependencies]
anyhow = "1"
async-trait = "0.1"
futures = "0.3"
opentelemetry = { version = "=0.27.1", default-features = false, features = ["trace"] }
opentelemetry_sdk = { version = "=0.27.1", default-features = false, features = ["trace"] }
reqwest = { version = "=0.12.28", default-features = false, features = ["json", "stream"] }
rig-core = { version = "=0.21.0", default-features = false }
rmcp = { version = "=0.8.5", features = ["client", "transport-streamable-http-client", "transport-child-process"] }
serde = { version = "1", features = ["derive"] }
serde_json = { version = "=1.0.154", features = ["float_roundtrip"] }
sse-stream = "=0.2.6"
thiserror = "2"
tokio = { version = "1", default-features = false, features = ["rt", "sync", "time", "macros", "process"] }
tokio-util = { version = "0.7", default-features = false }
tracing = "0.1"
url = "=2.5.8"
