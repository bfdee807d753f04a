[package]
name = "poster_generator"
version = "0.1.0"
edition = "2021"
publish = false

[dependencies]
anyhow = "1"
axum = "0.6"
base64 = "0.21"
chrono = "0.4"
clap = { version = "4", features = ["derive"] }
serde = { version = "1", features = ["derive"] }
serde_json = "1"
skia-safe = { version = "0.63", features = ["textlayout"] }
thiserror = "1"
tokio = { version = "1", features = ["full"] }
