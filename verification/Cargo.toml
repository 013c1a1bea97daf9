[package]
name = "articles"
version = "0.1.0"
edition = "2021"
publish = false

[dependencies]
axum = "=0.8.9"
axum-template = { version = "=3.0.0", features = ["handlebars"] }
base64 = "=0.23.1"
chrono = "=0.4.45"
chrono-tz = "=0.10.4"
clap = "=4.6.7"
handlebars = "=6.4.4"
markdown-ppp = "=2.12.0"
serde = { version = "=1.0.229", features = ["derive"] }
serde_json = "=1.0.151"
tokio = { version = "=1.53.2", features = ["full"] }
toml = "=1.1.6"
tower-http = { version = "=0.7.1", features = ["fs"] }
tracing = "=0.1.44"
tracing-subscriber = { version = "=0.3.23", features = ["env-filter"] }
