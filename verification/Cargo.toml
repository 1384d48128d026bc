[package]
name = "palmera"
version = "0.1.0"
edition = "2021"
publish = false

[dependencies]
anyhow = "=1.0.104"
argon2 = { version = "=0.5.3", features = ["std"] }
axum = { version = "=0.8.9", features = ["multipart"] }
chrono = { version = "=0.4.45", features = ["serde"] }
futures = "=0.3.34"
hmac = "=0.13.0"
lettre = { version = "=0.11.23", default-features = false, features = ["builder", "smtp-transport"] }
minio = "=0.4.0"
password-hash = { version = "=0.5.0", features = ["std"] }
sea-query = { version = "=1.0.2", features = ["with-json"] }
serde = { version = "=1.0.229", features = ["derive"] }
serde_json = "=1.0.154"
sha2 = "=0.11.1"
sqlx = { version = "=0.9.0", default-features = false, features = ["runtime-tokio", "postgres", "sqlite", "json", "uuid", "chrono", "migrate", "macros"] }
tokio = { version = "=1.54.1", features = ["full"] }
utoipa = "=6.0.0"
utoipa-axum = "=0.3.0"
uuid = { version = "=1.29.0", features = ["v4", "serde"] }
validator = { version = "=0.21.0", features = ["derive"] }
