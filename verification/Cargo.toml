[package]
name = "mimicri"
version = "0.1.0"
edition = "2021"
publish = false

[dependencies]
regex = "1"
ansi_term = "0.12"
serde = { version = "1", features = ["derive"] }
serde_json = "1"
rusqlite = { version = "0.29", features = ["bundled"] }
serenity = { version = "0.11", default-features = false, features = ["builder", "cache", "client", "collector", "gateway", "http", "model", "utils", "voice", "rustls_backend"] }
songbird = { version = "0.3", default-features = false, features = ["serenity-rustls", "driver", "gateway"] }
poise = { version = "0.5", default-features = false, features = ["cache"] }
tokio = { version = "1", default-features = false, features = ["macros", "rt-multi-thread", "sync"] }
dotenv = "0.15"
tracing = "0.1"
tracing-appender = "0.2"
tracing-subscriber = { version = "0.3", default-features = false, features = ["fmt", "json", "registry", "std"] }
