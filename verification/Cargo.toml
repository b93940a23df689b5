[package]
name = "mtg_search"
version = "0.1.0"
edition = "2021"
publish = false

[dependencies]
chrono = "*"
dotenv = "*"
futures = "*"
log = "*"
log4rs = "*"
reqwest = { version = "*", features = ["json"] }
serde = { version = "*", features = ["derive"] }
serde_json = "*"
serde_yaml = "*"
serenity = "*"
tokio = { version = "*", features = ["macros", "rt-multi-thread", "time"] }
urlencoding = "*"
