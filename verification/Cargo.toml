[package]
name = "cafebot"
version = "0.8.3"
edition = "2021"
publish = false

[dependencies]
rand = "0.8"
owoify_rs = "*"
cute-dnd-dice = "*"
serde_json = "1"
chrono = "0.4"
serenity = { version = "0.10", features = ["collector"] }
tokio = { version = "1", features = ["macros", "rt-multi-thread"] }
reqwest = "0.11"
rusqlite = { version = "0.27", features = ["bundled"] }
tokio-cron-scheduler = "*"
