[package]
name = "cache_proxy"
version = "0.1.0"
edition = "2021"
publish = false

[dependencies]
anyhow = "1"
fluent-uri = "0.1"
lru = "0.7"
tokio = { version = "1", features = ["io-util", "macros", "net", "rt-multi-thread", "sync"] }
