[package]
name = "gotta_fill_em_all"
version = "0.1.0"
edition = "2021"
publish = false

[dependencies]
csv = "1"
futures = "0.3"
log = "0.4"
pretty_env_logger = "0.5"
reqwest = { version = "0.12", features = ["json"] }
scraper = "*"
serde = { version = "1", features = ["derive"] }
serde_json = "1"
tokio = { version = "1", features = ["macros", "rt-multi-thread"] }
