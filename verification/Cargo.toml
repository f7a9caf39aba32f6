[package]
name = "miniminio"
version = "0.1.0"
edition = "2021"
publish = false

[dependencies]
axum = { version = "0.7", features = ["multipart"] }
chrono = "0.4"
clap = { version = "4", features = ["derive", "env"] }
hex = "0.4"
hmac = "0.12"
md-5 = "0.10"
mime_guess = "2"
percent-encoding = "2"
quick-xml = { version = "0.31", features = ["serialize"] }
reqwest = { version = "0.12", default-features = false }
serde = { version = "1", features = ["derive"] }
serde_json = "1"
sha2 = "0.10"
tokio = { version = "1", features = ["full"] }
tracing = "0.1"
tracing-subscriber = { version = "0.3", features = ["env-filter"] }
uuid = { version = "1", features = ["v4"] }
