[package]
name = "domain"
version = "0.1.0"
edition = "2021"
publish = false

[dependencies]
hmac = "0.12"
sha2 = "0.10"
hex = "0.4"
subtle = "2"
serde_json = "1"
uuid = { version = "1", features = ["v7", "serde"] }
time = { version = "0.3", features = ["serde", "formatting", "parsing"] }
jsonwebtoken = "9"
serde = { version = "1", features = ["derive"] }
anyhow = "1"
thiserror = "2"
axum = "0.8"
axum-extra = { version = "0.10", features = ["typed-header"] }
tokio = { version = "1", features = ["full"] }
reqwest = { version = "0.12", default-features = false, features = ["json", "rustls-tls"] }
sqlx = { version = "0.8", default-features = false, features = ["runtime-tokio", "postgres", "sqlite", "uuid", "time", "json", "migrate"] }
pgvector = { version = "0.4", features = ["sqlx"] }
secrecy = { version = "0.10", features = ["serde"] }
config = { version = "0.15", default-features = false, features = ["toml"] }
clap = { version = "4", features = ["derive", "env"] }
tracing = "0.1"
tracing-subscriber = { version = "0.3", features = ["env-filter", "fmt"] }
tracing-appender = "0.2"
tower-http = { version = "0.6", features = ["cors", "fs", "timeout", "trace", "compression-gzip", "decompression-gzip"] }
schemars = "1"
resend-rs = "*"
