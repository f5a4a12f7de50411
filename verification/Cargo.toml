[package]
name = "webpaste"
version = "0.1.0"
edition = "2021"
publish = false

[dependencies]
axum = { version = "0.8", features = ["multipart"] }
chardetng = "0.1"
chrono = "0.4"
deadpool-sqlite = "*"
hex = "0.4"
humantime = "2"
magic = "0.16"
nyquest = { version = "*", features = ["async"] }
nyquest-preset = { version = "*", features = ["async"] }
rand = "0.9"
serde = { version = "1", features = ["derive"] }
sha2 = "0.10"
thiserror = "2"
tokio = { version = "1", features = ["full"] }
toml = "*"
tracing = "0.1"
tracing-subscriber = "0.3"
