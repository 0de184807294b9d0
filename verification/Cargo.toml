[package]
name = "rssbot"
version = "0.1.0"
edition = "2021"
publish = false

[dependencies]
either = "1"
futures = "0.3"
pinyin = "*"
serde = { version = "1", features = ["derive"] }
serde_json = "1"
tbot = "0.6"
thiserror = "1"
tokio = { version = "0.2", features = ["macros", "rt-threaded", "stream", "sync", "time"] }
