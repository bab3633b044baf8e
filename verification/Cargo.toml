[package]
name = "realtime_core"
version = "0.1.0"
edition = "2021"
publish = false

[dependencies]
uuid = { version = "=1.27.0", features = ["v4", "serde"] }
chrono = { version = "=0.4.45", features = ["serde"] }
jsonwebtoken = { version = "=11.1.0", features = ["rust_crypto"] }
serde_json = "=1.0.151"
serde = { version = "=1.0.229", features = ["derive"] }
axum = { version = "=0.8.9", features = ["ws"] }
tokio = { version = "=1.53.2", features = ["rt-multi-thread", "macros", "sync", "net", "time"] }
futures = "=0.3.34"
dotenv = "=0.15.0"
