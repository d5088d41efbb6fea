[package]
name = "video_backend"
version = "0.1.0"
edition = "2021"
publish = false

[dependencies]
argon2 = { version = "=0.5.3", features = ["std"] }
axum = { version = "=0.7.9", features = ["multipart"] }
axum_typed_multipart = "=0.11.2"
bb8 = "=0.8.6"
chrono = { version = "=0.4.45", features = ["serde"] }
diesel = { version = "=2.2.12", default-features = false, features = ["postgres_backend", "chrono", "uuid"] }
diesel-async = { version = "=0.5.2", features = ["postgres", "bb8"] }
diesel_full_text_search = "=2.3.1"
dotenvy = "=0.15.7"
ffmpeg-next = "=7.1.0"
jsonwebtoken = "=9.3.1"
rust-s3 = { version = "=0.34.0", default-features = false, features = ["tokio-rustls-tls"] }
serde = { version = "=1.0.229", features = ["derive"] }
serde_json = "=1.0.154"
tempfile = "=3.27.0"
tokio = { version = "=1.54.1", features = ["full"] }
tracing = "=0.1.44"
tracing-subscriber = { version = "=0.3.23", features = ["env-filter"] }
uuid = { version = "=1.29.0", features = ["v4", "serde"] }
