[package]
name = "gateway"
version = "0.1.0"
edition = "2021"
publish = false

[dependencies]
jsonwebtoken = { version = "=11.1.0", features = ["rust_crypto"] }
chrono = { version = "=0.4.45", features = ["serde"] }
serde = { version = "1", features = ["derive"] }
serde_json = "1"
axum = { version = "=0.6.20", features = ["headers"] }
tokio = { version = "1", features = ["full"] }
tokio-stream = "=0.1.19"
tower-http = { version = "=0.4.4", features = ["cors", "trace"] }
tracing = "0.1"
tracing-subscriber = "0.3"
async-openai = "=0.14.3"
futures = "0.3"
futures-util = "0.3"
dotenv = "0.15"
thiserror = "1"
