[package]
name = "multi_session"
version = "0.1.0"
edition = "2021"
publish = false

[dependencies]
anyhow = "1"
chrono = "0.4"
regex = "1"
serde = { version = "1", features = ["derive"] }
serde_json = "1"
sqlx = { version = "*", default-features = false, features = ["runtime-tokio", "sqlite"] }
tauri = { version = "*", default-features = false }
tokio = { version = "1", features = ["io-util", "macros", "process", "rt", "sync", "time"] }
uuid = { version = "1", features = ["v4"] }
