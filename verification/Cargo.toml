[package]
name = "yt_yapper"
version = "0.1.0"
edition = "2021"
publish = false

[dependencies]
regex = "=1.13.1"
rustfm-scrobble = "=1.1.1"
serde = { version = "=1.0.229", features = ["derive"] }
serde_derive = "=1.0.229"
serde_json = "=1.0.154"
anyhow = "=1.0.104"
async-trait = "=0.1.92"
dotenv = "=0.15.0"
futures = "=0.3.34"
poise = "=0.6.2"
reqwest = { version = "=0.12.28", default-features = false, features = ["rustls-tls"] }
serenity = { version = "=0.12.5", default-features = false, features = ["builder", "cache", "client", "gateway", "model", "http", "utils", "rustls_backend"] }
tokio = { version = "=1.54.1", features = ["macros", "rt-multi-thread", "sync", "time"] }
tracing-subscriber = { version = "=0.3.23", default-features = false, features = ["fmt"] }
sqlx = { version = "=0.8.6", default-features = false, features = ["sqlite", "runtime-tokio"] }
spotify-rs = "=0.3.14"
axum = { version = "0.7", default-features = false, features = ["query", "json", "tokio", "http1"] }
