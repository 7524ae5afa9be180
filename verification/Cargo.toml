[package]
name = "adcrawl"
version = "0.1.0"
edition = "2021"
publish = false

[dependencies]
chrono = { version = "0.4", default-features = false, features = ["std"] }
csv = "1"
regex = "1"
reqwest = "0.12"
scraper = "*"
tokio = { version = "1", features = ["full"] }
