[package]
name = "codex_goals"
version = "0.1.0"
edition = "2021"
publish = false

[dependencies]
anyhow = "1"
chrono = "0.4"
tokio = { version = "1", features = ["fs", "sync"] }
tracing = "0.1"
uuid = { version = "1", features = ["v4"] }
