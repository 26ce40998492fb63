[package]
name = "turso_storage"
version = "0.1.0"
edition = "2021"
publish = false

[dependencies]
anyhow = "=1.0.104"
libsql = { version = "=0.10.0", default-features = false, features = ["core", "remote", "replication"] }
serde = { version = "=1.0.229", features = ["derive"] }
serde_json = "=1.0.154"
taskchampion = { version = "=2.0.3", default-features = false }
tokio = { version = "=1.54.1", features = ["rt-multi-thread"] }
