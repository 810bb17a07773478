[package]
name = "nest_markets"
version = "0.1.0"
edition = "2021"
publish = false

[dependencies]
hex = "=0.4.3"
serde = { version = "1", features = ["derive"] }
serde_json = "1"
tokio = { version = "1", features = ["macros", "rt-multi-thread", "net", "time", "sync"] }
axum = { version = "=0.8.9", features = ["ws"] }
sqlx = { version = "=0.9.0", default-features = false, features = ["runtime-tokio", "any", "sqlite", "macros"] }
tower-http = { version = "=0.7.1", features = ["cors"] }
tokio-tungstenite = "=0.30.0"
futures-util = "0.3"
anyhow = "1"
log = "0.4"
env_logger = "=0.11.11"
dotenvy = "=0.15.7"
