[package]
name = "avvai_core"
version = "0.1.0"
edition = "2021"
publish = false

[dependencies]
fsrs = "*"
rusqlite = { version = "*", features = ["bundled"] }
chrono = "*"
serde = { version = "*", features = ["derive"] }
serde_json = "*"
axum = { version = "*", features = ["multipart"] }
tokio = { version = "*", features = ["rt-multi-thread", "macros", "net", "fs", "io-util"] }
dotenv = "*"
