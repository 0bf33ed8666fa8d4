[package]
name = "fffq"
version = "0.1.0"
edition = "2021"
publish = false

[dependencies]
axum = "0.8"
blake3 = "1"
clap = { version = "4", features = ["derive", "env"] }
git2 = { version = "*", default-features = false }
rmcp = { version = "*", features = ["server", "transport-io", "transport-streamable-http-server"] }
serde = { version = "1", features = ["derive"] }
serde_json = "1"
tokio = { version = "1", features = ["macros", "net", "rt-multi-thread", "signal", "time"] }
tokio-util = "0.7"
tracing = "0.1"
