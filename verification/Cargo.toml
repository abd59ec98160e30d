[package]
name = "bms-table"
version = "0.1.0"
edition = "2021"
publish = false

[dependencies]
anyhow = "*"
htmlparser = "*"
scraper = "*"
serde = { version = "*", features = ["derive"] }
serde_json = "*"
thiserror = "*"
url = { version = "*", features = ["serde"] }
reqwest = { version = "0.12", default-features = false, features = ["rustls-tls", "cookies"] }
