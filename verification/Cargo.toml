[package]
name = "karakeep_sync"
version = "0.1.0"
edition = "2021"
publish = false

[dependencies]
anyhow = "=1.0.104"
async-trait = "=0.1.92"
config = { version = "=0.15.27", default-features = false }
dotenvy = "=0.15.7"
futures = "=0.3.34"
reqwest = { version = "=0.13.5", default-features = false, features = ["json", "form"] }
serde = { version = "=1.0.229", features = ["derive"] }
tokio = { version = "=1.54.1", features = ["sync"] }
tracing = "=0.1.44"
