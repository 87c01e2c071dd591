[package]
name = "feedbook"
version = "0.1.0"
edition = "2021"
publish = false

[dependencies]
chrono = "*"
clap = { version = "*", features = ["derive"] }
epub-builder = "*"
feed-rs = "*"
reqwest = { version = "*", default-features = false, features = ["blocking"] }
scraper = "*"
serde = { version = "*", features = ["derive"] }
toml = "*"
