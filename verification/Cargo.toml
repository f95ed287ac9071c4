[package]
name = "cinema_sessions"
version = "0.1.0"
edition = "2021"
publish = false

[dependencies]
chrono = "=0.4.45"
serde = { version = "=1.0.229", features = ["derive"] }
serde_json = "=1.0.151"
tokio = { version = "=1.53.2", features = ["rt-multi-thread", "sync", "macros", "time", "net"] }
axum = { version = "=0.8.9", features = ["ws"] }
futures = "=0.3.34"
tower-http = { version = "=0.7.1", features = ["cors"] }
