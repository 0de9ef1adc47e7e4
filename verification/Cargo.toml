[package]
name = "rusted_quotes"
version = "0.1.0"
edition = "2021"
publish = false

[dependencies]
uuid = { version = "=1.27.0", features = ["v4"] }
rand = "=0.10.3"
chrono = "=0.4.45"
axum = "=0.8.9"
tokio = { version = "=1.53.2", features = ["rt-multi-thread", "macros"] }
tower-http = { version = "=0.7.1", features = ["cors"] }
serde = { version = "=1.0.229", features = ["derive"] }
dotenv = "=0.15.0"
