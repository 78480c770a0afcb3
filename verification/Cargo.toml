[package]
name = "html_query"
version = "0.1.0"
edition = "2021"
publish = false

[dependencies]
anyhow = "=1.0.104"
clap = { version = "=4.6.7", features = ["derive"] }
ego-tree = "=0.6.3"
markup5ever = "=0.11.0"
nom = "=7.1.3"
scraper = { version = "=0.17.1", default-features = false }
serde_json = "=1.0.154"
