[package]
name = "mbox_viewer"
version = "0.1.0"
edition = "2021"
publish = false

[dependencies]
mailparse = "=0.15.0"
scraper = "=0.29.0"
ego-tree = "=0.11.1"
sha2 = "=0.10.9"
hex = "=0.4.3"
chrono = "=0.4.45"
serde = { version = "=1.0.229", features = ["derive"] }
serde_json = "=1.0.154"
tantivy = "=0.22.1"
axum = "=0.7.9"
tokio = { version = "=1.54.1", features = ["macros", "rt-multi-thread", "net"] }
tower-http = { version = "=0.5.2", features = ["cors", "fs"] }
clap = { version = "=4.6.7", features = ["derive", "env"] }
directories = "=5.0.1"
tracing = "=0.1.44"
tracing-subscriber = "=0.3.23"
anyhow = "=1.0.104"
