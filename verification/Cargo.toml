[package]
name = "astor_scraper"
version = "0.1.0"
edition = "2021"
publish = false

[dependencies]
scraper = "*"
url = "*"
clap = "*"
reqwest = { version = "*", default-features = false, features = ["blocking", "rustls-tls"] }
