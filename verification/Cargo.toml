[package]
name = "session_relay"
version = "0.1.0"
edition = "2021"
publish = false

[dependencies]
tokio = { version = "=1.53.2", features = ["rt-multi-thread", "macros", "net", "sync", "time", "signal"] }
axum = { version = "=0.7.9", features = ["ws"] }
serde = { version = "=1.0.229", features = ["derive"] }
serde_json = "=1.0.151"
headless_chrome = "=0.9.0"
