[package]
name = "guild_engine"
version = "0.1.0"
edition = "2021"
publish = false

[dependencies]
chrono = "0.4"
dotenvy = "0.15"
env_logger = "*"
fancy-regex = "*"
log = "0.4"
rand = "0.8"
refinery = { version = "*", features = ["rusqlite"] }
rusqlite = "*"
serenity = "0.11"
tokio = { version = "1", features = ["macros", "rt-multi-thread", "time", "sync"] }
