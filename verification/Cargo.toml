[package]
name = "mwget"
version = "0.1.0"
edition = "2021"
publish = false

[dependencies]
chrono = "*"
clap = { version = "*", features = ["derive"] }
crossterm = "*"
futures = "*"
reqwest = { version = "*", default-features = false, features = ["stream"] }
scraper = "*"
tokio = { version = "*", features = ["full"] }
url = "*"
