[package]
name = "codex_native_team"
version = "0.1.0"
edition = "2021"
publish = false

[dependencies]
anyhow = "1"
chrono = "0.4"
clap = { version = "4", features = ["derive"] }
cron = "*"
serde = { version = "1", features = ["derive"] }
serde_json = "1"
sha2 = "0.10"
tokio = { version = "1", features = ["fs", "io-util", "macros", "process", "rt-multi-thread", "sync", "time"] }
toml = "*"
uuid = { version = "1", features = ["v7"] }

[dev-dependencies]
pretty_assertions = "1"
tempfile = "3"
