[package]
name = "voiceinsert"
version = "2.0.0"
edition = "2021"
publish = false

[dependencies]
anyhow = "1"
arboard = { version = "=3.7.0", default-features = false }
global-hotkey = "=0.7.0"
hound = "=3.5.1"
reqwest = { version = "=0.12.28", default-features = false, features = ["json", "multipart"] }
url = "2"
serde = { version = "1", features = ["derive"] }
serde_json = "1"
tokio = { version = "1", features = ["rt-multi-thread", "time"] }
tracing = "0.1"
tracing-appender = "0.2"
tracing-subscriber = { version = "0.3", features = ["env-filter", "fmt"] }
