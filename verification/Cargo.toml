[package]
name = "immaterium"
version = "0.1.0"
edition = "2021"
publish = false

[dependencies]
uuid = { version = "*", features = ["v4"] }
chrono = "*"
serde = { version = "*", features = ["derive"] }
serde_json = "*"
tokio = { version = "*", features = ["rt-multi-thread", "sync", "time"] }
portable-pty = "*"
sqlx = { version = "*", features = ["sqlite", "runtime-tokio"] }
anyhow = "*"
