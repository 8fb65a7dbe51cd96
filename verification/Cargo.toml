[package]
name = "tshock_discord_monitor"
version = "0.1.0"
edition = "2021"
publish = false

[dependencies]
backoff = "0.2"
config = "0.10"
reqwest = { version = "0.10", features = ["json"] }
serde = { version = "1", features = ["derive"] }
serenity = "0.9"
tokio = { version = "0.2", features = ["macros", "rt-threaded", "time"] }
