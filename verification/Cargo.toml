[package]
name = "mcp-news"
version = "0.1.0"
edition = "2021"
publish = false

[dependencies]
adk-mcp-sdk = "*"
anyhow = "1"
reqwest = { version = "*", default-features = false, features = ["rustls-tls"] }
rmcp = { version = "*", features = ["server", "macros", "transport-io"] }
serde = { version = "1", features = ["derive"] }
serde_json = "1"
tokio = { version = "1", features = ["macros", "rt-multi-thread", "io-std"] }
