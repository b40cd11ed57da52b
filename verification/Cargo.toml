[package]
name = "chat_stream"
version = "0.1.0"
edition = "2021"
publish = false

[dependencies]
anyhow = "=1.0.104"
clap = { version = "=4.6.7", features = ["derive"] }
futures = "=0.3.34"
reqwest = { version = "=0.11.27", features = ["stream"] }
serde = { version = "=1.0.229", features = ["derive"] }
serde_json = "=1.0.154"
tokio = { version = "=1.54.1", features = ["macros", "rt-multi-thread", "time"] }
toml = "=0.7.8"
