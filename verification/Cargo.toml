[package]
name = "order_service"
version = "0.1.0"
edition = "2021"
publish = false

[dependencies]
anyhow = "*"
config = "*"
deadpool-redis = "*"
dotenvy = "*"
jsonwebtoken = { version = "10", default-features = false, features = ["rust_crypto"] }
serde = { version = "1", features = ["derive"] }
serde_json = "1"
sqlx = { version = "0.8", default-features = false, features = ["runtime-tokio", "mysql", "derive"] }
tokio = { version = "1", features = ["full"] }
tonic = "*"
tonic-health = "*"
