[package]
name = "termreader"
version = "0.1.0"
edition = "2021"
publish = false

[dependencies]
anyhow = "*"
thiserror = "*"
serde = { version = "*", features = ["derive"] }
serde_json = "*"
sha256 = "*"
regex = "*"
scraper = "*"
chrono = "*"
reqwest = { version = "*", default-features = false, features = ["blocking", "rustls-tls", "multipart"] }
ratatui = "*"
crossterm = "*"
