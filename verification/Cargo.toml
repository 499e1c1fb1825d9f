[package]
name = "source_watch"
version = "0.1.0"
edition = "2021"
publish = false

[dependencies]
dashmap = "*"
log = "*"
pretty_env_logger = "*"
reqwest = { version = "*", features = ["json"] }
serde = { version = "*", features = ["derive"] }
tokio = { version = "*", features = ["macros", "rt-multi-thread", "time"] }
