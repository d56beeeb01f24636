[package]
name = "asgard"
version = "0.1.0"
edition = "2021"
publish = false

[dependencies]
aes-gcm = "0.10"
async-trait = "0.1"
chrono = { version = "0.4", default-features = false, features = ["clock", "std"] }
reqwest = { version = "0.12", default-features = false, features = ["json"] }
serde = { version = "1", features = ["derive"] }
serde_json = "1"
serde_yaml = "0.9"
sqlx = { version = "0.8", default-features = false, features = ["any", "runtime-tokio"] }
thiserror = "2"
tokio = { version = "1", features = ["process", "time", "rt", "macros", "io-util", "fs", "sync"] }
tracing = "0.1"
