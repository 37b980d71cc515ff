[package]
name = "signal_hub"
version = "0.1.0"
edition = "2021"
publish = false

[dependencies]
jsonwebtoken = "9"
serde_json = "1"
uuid = { version = "1", features = ["v4"] }
rand = "0.8"
axum = { version = "0.8", features = ["ws"] }
tokio = { version = "1", features = ["macros", "rt-multi-thread", "sync", "net"] }
mongodb = "2"
futures-util = "0.3"
serde = { version = "1", features = ["derive"] }
chrono = "0.4"
dotenv = "0.15"
tower-http = { version = "0.6", features = ["cors"] }
