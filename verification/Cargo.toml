[package]
name = "user_service"
version = "0.1.0"
edition = "2021"
publish = false

[dependencies]
uuid = { version = "=1.27.0", features = ["v4"] }
chrono = { version = "=0.4.45", features = ["serde"] }
serde = { version = "*", features = ["derive"] }
serde_json = "*"
axum = "=0.8.9"
tokio = { version = "*", features = ["rt-multi-thread", "macros", "net", "sync"] }
tower = "*"
tower-http = { version = "*", features = ["cors"] }
tracing = "*"
tracing-subscriber = "*"
