[package]
name = "decisionbot"
version = "0.1.0"
edition = "2021"
publish = false

[dependencies]
non-empty-string = "*"
anyhow = "1"
axum = "0.7"
dotenv = "0.15"
env_logger = "0.11"
log = "0.4"
serde = { version = "1", features = ["derive"] }
sqlx = { version = "0.8", default-features = false, features = ["sqlite", "runtime-tokio"] }
tokio = { version = "1", features = ["macros", "rt-multi-thread", "net"] }
