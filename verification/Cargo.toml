[package]
name = "mcp_gateway"
version = "0.1.0"
edition = "2021"
publish = false

[dependencies]
futures = "=0.3.34"
http = "=1.5.0"
itertools = "=0.15.0"
reqwest = { version = "=0.13.5", default-features = false }
rmcp = { version = "=1.7.0", default-features = false, features = ["client", "server", "transport-streamable-http-client-reqwest"] }
serde_json = "=1.0.154"
tokio = { version = "=1.54.1", features = ["sync"] }
tracing = "=0.1.44"
typed-builder = "=0.23.2"
url = "=2.5.8"
