[package]
name = "rocketstats"
version = "0.1.0"
edition = "2021"
publish = false

[dependencies]
anyhow = "1"
chrono = "0.4"
chrono-tz = "*"
futures-util = "0.3"
mongodb = "2"
serde = { version = "1", features = ["derive"] }
serde_json = "1"
surf = { version = "2", default-features = false, features = ["h1-client-no-tls"] }
tide = "0.16"
tokio = { version = "1", features = ["macros", "rt-multi-thread"] }
