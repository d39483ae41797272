[package]
name = "epub_reader"
version = "0.1.0"
edition = "2021"
publish = false

[dependencies]
regex = "1"
slug = "0.1"
html-escape = "0.2"
pulldown-cmark = { version = "*", default-features = false }
scraper = "*"
epub = "1"
syntect = { version = "5", default-features = false, features = ["default-fancy"] }
anyhow = "1"
clap = { version = "4", features = ["derive"] }
tokio = { version = "1", features = ["rt-multi-thread", "macros", "time"] }
indicatif = "0.17"
console = "0.15"
serde = { version = "1", features = ["derive"] }
serde_json = "1"
