[package]
name = "feedcore"
version = "0.1.0"
edition = "2021"
publish = false

[dependencies]
rss = "2"
scraper = "*"
serde_json = "1"
serde = { version = "1", features = ["derive"] }
tokio = { version = "1", features = ["rt-multi-thread", "macros"] }
axum = "0.6"
reqwest = { version = "0.11", default-features = false, features = ["rustls-tls"] }
tower-http = { version = "0.4", features = ["fs"] }
tracing = "0.1"
tracing-subscriber = "0.3"
