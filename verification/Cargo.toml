[package]
name = "risk_manager"
version = "0.1.0"
edition = "2021"
publish = false

[dependencies]
rust_decimal = "=1.43.0"
num-traits = "=0.2.19"
anyhow = "=1.0.104"
serde = { version = "=1.0.229", features = ["derive"] }
serde_json = "=1.0.154"
chrono = { version = "=0.4.45", features = ["serde"] }
uuid = { version = "=1.29.0", features = ["serde", "v4"] }
tokio = { version = "=1.54.1", features = ["macros", "rt-multi-thread"] }
tracing = "=0.1.44"
tracing-subscriber = { version = "=0.2.25", features = ["json", "env-filter"] }
dotenv = "=0.15.0"
config = "=0.11.0"
rdkafka = "=0.26.0"
reqwest = { version = "=0.11.27", default-features = false, features = ["blocking", "json"] }
redis = "=0.27.6"
