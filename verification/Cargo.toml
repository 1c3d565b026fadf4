[package]
name = "feed_ingest"
version = "0.1.0"
edition = "2021"
publish = false

[dependencies]
rss = "=2.1.2"
actix-web = "=4.18.1"
chrono = "=0.4.45"
fern = "=0.7.1"
futures = "=0.3.34"
log = "=0.4.34"
mongodb = "=3.9.1"
reqwest = "=0.12.28"
serde = { version = "=1.0.229", features = ["derive"] }
tokio = { version = "=1.54.1", features = ["full"] }

[dev-dependencies]
quick-xml = "=0.41.0"
