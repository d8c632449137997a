[package]
name = "health_monitor"
version = "0.1.0"
edition = "2021"
publish = false

[dependencies]
axum = "=0.8.9"
dotenv = "=0.15.0"
r2d2 = "=0.8.10"
r2d2_sqlite = "=0.35.0"
reqwest = "=0.12.28"
rusqlite = { version = "=0.40.2", features = ["fallible_uint"] }
serde = { version = "=1.0.229", features = ["derive"] }
tokio = { version = "=1.54.1", features = ["full"] }
toml = "=1.2.1"
tower-http = { version = "=0.6.11", features = ["cors", "fs"] }
