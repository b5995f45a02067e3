[package]
name = "clserver"
version = "0.1.0"
edition = "2021"
publish = false

[dependencies]
anyhow = "1"
chrono = "0.4"
clap = { version = "4", features = ["derive"] }
dirs = "*"
libc = "0.2"
serde = { version = "1", features = ["derive"] }
serde_json = "1"
toml_edit = { version = "*", features = ["serde"] }
tracing = "0.1"
tracing-appender = "0.2"
tracing-subscriber = "0.3"
ureq = "2"
