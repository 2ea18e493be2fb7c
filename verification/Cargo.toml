[package]
name = "headlines"
version = "0.1.0"
edition = "2021"
publish = false

[dependencies]
scraper = "*"
clap = { version = "*", features = ["derive"] }
reqwest = { version = "*", default-features = false }
tokio = { version = "*", features = ["macros", "rt-multi-thread"] }
vader_sentiment = "*"
