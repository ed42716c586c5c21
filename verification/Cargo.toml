[package]
name = "flagrant"
version = "0.1.0"
edition = "2021"
publish = false

[dependencies]
ulid = "=3.0.0"
anyhow = "=1.0.104"
thiserror = "=2.0.21"
serde = { version = "=1.0.229", features = ["derive"] }
tokio = { version = "=1.54.1", features = ["rt-multi-thread", "macros", "net"] }
axum = "=0.8.9"
tower-http = { version = "=0.6.11", features = ["trace"] }
tracing = "=0.1.44"
tracing-subscriber = { version = "*", features = ["env-filter"] }
reqwest = { version = "=0.13.5", default-features = false, features = ["blocking", "json"] }
rustyline = "=19.0.0"
ascii_table = "=5.0.0"
rand = "=0.10.3"
dashmap = "*"
indicatif = "*"
