[package]
name = "ginger_code"
version = "0.1.0"
edition = "2021"
publish = false

[dependencies]
sha2 = "0.10"
chrono = "0.4"
rmpv = "1"
serde = { version = "1", features = ["derive"] }
serde_json = "1"
toml = "0.8"
thiserror = "1"
tokio = { version = "1", features = ["process", "io-util", "sync", "rt", "macros", "time"] }
dirs = "5"
parking_lot = "0.12"
dashmap = "*"
tracing = "0.1"
tracing-subscriber = { version = "0.3", features = ["env-filter"] }
libc = "0.2"
rusqlite = { version = "*", features = ["bundled"] }

[dev-dependencies]
tempfile = "3"
