[package]
name = "wavebreaker_core"
version = "0.1.0"
edition = "2021"
publish = false

[dependencies]
time = "*"
serde = { version = "*", features = ["derive"] }
axum = "*"
axum-serde = { version = "*", features = ["xml"] }
tokio = { version = "*", features = ["rt", "macros", "sync"] }
