[package]
name = "herobot"
version = "0.1.0"
edition = "2021"
publish = false

[dependencies]
regex = "1"
poise = "0.6"
serenity = "0.12"
rusqlite = { version = "0.32", features = ["bundled"] }
tokio = { version = "1", features = ["macros", "rt-multi-thread", "sync", "time"] }
