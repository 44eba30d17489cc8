[package]
name = "meetily_core"
version = "0.1.0"
edition = "2021"
publish = false

[dependencies]
chrono = "0.4"
uuid = { version = "1", features = ["v4", "v5"] }
serde = { version = "1", features = ["derive"] }
serde_json = "1"
anyhow = "1"
sqlx = { version = "0.8", default-features = false, features = ["runtime-tokio", "sqlite", "macros"] }
tokio = { version = "1", features = ["macros", "rt-multi-thread", "io-std"] }
clap = { version = "4", features = ["derive", "env"] }
dirs = "5"
log = "0.4"
tracing = "0.1"
