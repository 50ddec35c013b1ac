[package]
name = "erfiume"
version = "0.1.0"
edition = "2021"
publish = false

[dependencies]
anyhow = "=1.0.104"
aws-config = "=1.12.0"
aws-sdk-dynamodb = "=1.130.0"
chrono = "=0.4.45"
chrono-tz = "=0.10.4"
futures = "=0.3.34"
reqwest = { version = "=0.13.5", default-features = false, features = ["form", "json"] }
serde = { version = "=1.0.229", features = ["derive"] }
serde_json = "=1.0.151"
strsim = "=0.11.1"
tokio = { version = "=1.53.2", features = ["macros", "rt-multi-thread"] }
