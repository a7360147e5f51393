[package]
name = "claude_vault"
version = "0.1.0"
edition = "2021"
publish = false

[dependencies]
anyhow = "1"
libsql = { version = "*", default-features = false, features = ["core", "replication", "tls"] }

[dev-dependencies]
tempfile = "3"
tokio = { version = "1", features = ["rt"] }
