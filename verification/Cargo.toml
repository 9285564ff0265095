[package]
name = "sport_analytics"
version = "0.1.0"
edition = "2021"
publish = false

[dependencies]
anyhow = "1"
chrono = "0.4"
clap = { version = "4", features = ["derive"] }
dotenv = "0.15"
reqwest = { version = "0.11", default-features = false }
serde = "1"
serde_derive = "1"
serde_json = "1"
tokio = { version = "1", features = ["rt-multi-thread", "macros", "time", "sync"] }
tokio-retry = "0.3"
