[package]
name = "transcriber_api"
version = "0.1.0"
edition = "2021"
publish = false

[dependencies]
anyhow = "=1.0.104"
async-stream = "=0.3.6"
axum = { version = "=0.8.9", features = ["multipart", "macros"] }
axum-extra = { version = "=0.10.3", features = ["typed-header"] }
base64 = "=0.22.1"
futures = "=0.3.34"
gemini-client-api = "=7.7.1"
hex = "=0.4.3"
jsonwebtoken = "=9.3.1"
mime = "=0.3.17"
reqwest = { version = "=0.13.5", default-features = false, features = ["json", "stream", "rustls"] }
serde = { version = "=1.0.229", features = ["derive"] }
serde_json = "=1.0.154"
sha2 = "=0.10.9"
sqlx = { version = "=0.8.6", default-features = false, features = ["postgres", "runtime-tokio", "uuid", "json", "migrate"] }
tokio = { version = "=1.54.1", features = ["full"] }
tokio-stream = "=0.1.19"
tower-http = { version = "=0.6.11", features = ["cors", "trace"] }
tracing = "=0.1.44"
uuid = { version = "=1.29.0", features = ["v4"] }
