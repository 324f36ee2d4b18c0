[package]
name = "rockola"
version = "0.1.0"
edition = "2021"
publish = false

[dependencies]
unicode-normalization = "0.1"
url = "2"
percent-encoding = "2"
mime_guess = "2"
uuid = { version = "1", features = ["v4"] }
rand = "0.8"
time = "0.3"
serde = { version = "1", features = ["derive"] }
serde_json = "1"
axum = "0.7"
tokio = { version = "1", features = ["full"] }
tower-http = { version = "0.5", features = ["cors"] }
sqlx = { version = "0.8", default-features = false, features = ["sqlite", "runtime-tokio", "migrate"] }
tracing = "0.1"
tracing-subscriber = { version = "0.3", features = ["env-filter"] }
anyhow = "1"
dotenvy = "0.15"
thiserror = "1"
walkdir = "2"
rusqlite = { version = "0.32", features = ["bundled"] }
