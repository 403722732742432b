[package]
name = "exmatrikulator"
version = "0.1.0"
edition = "2021"
publish = false

[dependencies]
anyhow = "1"
env_logger = "0.8"
futures = "0.3"
log = "0.4"
sqlx = { version = "0.5", default-features = false, features = ["postgres", "runtime-async-std-rustls", "macros", "migrate"] }
telegram-bot = { version = "0.8", default-features = false, features = ["rustls"] }
tokio = { version = "0.2", features = ["macros", "time", "rt-threaded"] }
