[package]
name = "logsday"
version = "0.1.0"
edition = "2021"
publish = false

[dependencies]
askama = "0.14"
axum = "0.8"
axum_typed_multipart = "0.16"
image = { version = "0.25", default-features = false, features = ["gif", "jpeg", "png", "webp", "ico"] }
infer = "0.19"
pulldown-cmark = "0.13"
scraper = "0.23"
serde = { version = "1", features = ["derive"] }
serde_json = "1"
sqlparser = "0.55"
sqlx = { version = "0.8", default-features = false, features = ["sqlite", "runtime-tokio", "macros"] }
tokio = { version = "1", features = ["full"] }
tokio-cron-scheduler = "0.14"
tower-http = { version = "0.6", features = ["fs", "normalize-path"] }
tower-sessions = "0.14"
webp-animation = "0.9"
argon2 = "0.5"
