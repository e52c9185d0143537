[package]
name = "octobrain"
version = "0.1.0"
edition = "2021"
publish = false

[dependencies]
chrono = { version = "=0.4.45", features = ["serde"] }
uuid = { version = "=1.29.0", features = ["v4"] }
sha2 = "=0.10.9"
hex = "=0.4.3"
serde_json = "=1.0.154"
html2text = "=0.17.4"
serde = { version = "1", features = ["derive"] }
anyhow = "1"
toml = "*"
clap = { version = "4", features = ["derive"] }
tokio = { version = "1", features = ["macros", "rt-multi-thread", "io-std", "io-util", "sync"] }
dirs = "*"
dotenvy = "*"
colored = "*"
futures = "0.3"
tracing = "0.1"
tracing-subscriber = { version = "0.3", features = ["env-filter", "json"] }
tracing-appender = "0.2"
reqwest = { version = "0.12", default-features = false, features = ["rustls-tls"] }
arrow = { version = "=60.0.0", default-features = false }
arrow-array = "=60.0.0"
arrow-schema = "=60.0.0"
octolib = { version = "=0.45.3", default-features = false, features = ["embeddings", "reranker"] }
