[package]
name = "lndown"
version = "0.3.1"
edition = "2021"
publish = false

[dependencies]
scraper = "=0.12.0"
epub-builder = "=0.4.10"
clap = "=2.34.0"
dialoguer = "=0.8.0"
futures = "=0.3.34"
indicatif = "0.17"
log = "=0.4.35"
reqwest = { version = "=0.11.27", default-features = false, features = ["rustls-tls"] }
tokio = { version = "=1.54.1", features = ["macros", "rt-multi-thread"] }
