[package]
name = "lotto_scraper"
version = "0.1.0"
edition = "2021"
publish = false

[dependencies]
url = "*"
anyhow = "*"
serde = { version = "*", features = ["derive"] }
serde_json = "*"
tokio = { version = "*", features = ["macros", "rt-multi-thread", "time"] }
reqwest = { version = "*", default-features = false, features = ["rustls-tls"] }
scraper = "*"
actix-web = { version = "*", default-features = false, features = ["macros"] }
actix-files = "*"
mimalloc = "*"
ndarray = "0.15"
linfa = "0.7"
linfa-trees = "0.7"
