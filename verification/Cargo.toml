[package]
name = "inspo_crawler"
version = "0.1.0"
edition = "2021"
publish = false

[dependencies]
scraper = "*"
serde_json = "1"
urlencoding = "2"
serde = { version = "1", features = ["derive"] }
reqwest = { version = "0.12", default-features = false, features = ["rustls-tls", "gzip", "brotli"] }
tokio = { version = "1", features = ["fs", "macros", "rt-multi-thread", "sync"] }
futures = "0.3"
anyhow = "1"
async-trait = "0.1"
