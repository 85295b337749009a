[package]
name = "sms_client"
version = "0.1.0"
edition = "2021"
publish = false

[dependencies]
sha2 = "*"
serde = { version = "*", features = ["derive"] }
serde_json = "*"
tokio = { version = "*", features = ["rt", "process", "signal", "sync", "time", "macros"] }
sqlx = { version = "*", default-features = false, features = ["sqlite", "runtime-tokio"] }
log = "*"
anyhow = "*"
clap = "*"
