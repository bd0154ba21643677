[package]
name = "mail_engine"
version = "0.1.0"
edition = "2021"
publish = false

[dependencies]
ring = "0.17"
base64 = "0.22"
hex = "0.4"
mailparse = "*"
mime = "0.3"
chrono = { version = "0.4", features = ["serde"] }
uuid = { version = "1", features = ["v4", "serde"] }
lettre = { version = "0.11", default-features = false, features = ["builder", "smtp-transport", "tokio1", "tokio1-native-tls"] }
serde = { version = "1", features = ["derive"] }
serde_json = "1"
tokio = { version = "1", features = ["full"] }
tokio-util = { version = "0.7", features = ["compat"] }
futures = "0.3"
async-imap = { version = "*", default-features = false, features = ["runtime-tokio"] }
async-native-tls = "*"
axum = "0.7"
axum-extra = { version = "0.9", features = ["cookie"] }
sea-orm = { version = "1", default-features = false, features = ["sqlx-postgres", "runtime-tokio-rustls", "macros", "with-chrono", "with-uuid", "with-json"] }
reqwest = { version = "0.12", default-features = false, features = ["json", "rustls-tls"] }
resend-rs = "*"
argon2 = "0.5"
dotenvy = "0.15"
time = "0.3"
tower-http = { version = "0.5", features = ["cors"] }
tracing = "0.1"
tracing-subscriber = "0.3"
async-trait = "0.1"
