[package]
name = "shuba_scraper"
version = "0.1.0"
edition = "2021"
publish = false

[dependencies]
anyhow = "*"
chromiumoxide = "*"
clap = { version = "*", features = ["derive"] }
futures = "*"
indexmap = "*"
rand = "*"
regex = "*"
reqwest = { version = "*", default-features = false, features = ["json"] }
scraper = "*"
serde = { version = "*", features = ["derive"] }
serde_json = "*"
tokio = { version = "*", features = ["full"] }
