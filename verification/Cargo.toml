[package]
name = "animus-subject-sqlite"
version = "0.1.0"
edition = "2021"
publish = false

[dependencies]
anyhow = "=1.0.104"
async-trait = "=0.1.92"
chrono = "=0.4.45"
futures = "=0.3.34"
serde_json = "=1.0.154"
sqlx = { version = "=0.8.6", default-features = false, features = ["runtime-tokio", "sqlite"] }
tokio = { version = "=1.54.1", features = ["fs", "macros", "rt-multi-thread", "sync", "time"] }
tokio-stream = { version = "=0.1.19", features = ["sync"] }
tracing = "=0.1.44"
tracing-subscriber = { version = "=0.3.23", features = ["env-filter"] }
ulid = "=1.2.1"

[dev-dependencies]
tempfile = "=3.27.0"
