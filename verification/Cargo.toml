[package]
name = "voice_relay"
version = "0.1.0"
edition = "2021"
publish = false

[dependencies]
tokio = { version = "=1.54.1", features = ["sync", "rt", "rt-multi-thread", "macros"] }
dashmap = "=5.5.3"
anyhow = "1"
thiserror = "1"
tracing = "0.1"
futures = "0.3"
serenity = { version = "0.12", default-features = false, features = ["cache", "client", "gateway", "model", "rustls_backend", "voice"] }
songbird = { version = "0.4", default-features = false, features = ["serenity", "rustls", "driver", "gateway", "receive"] }
serenity-voice-model = "0.2"
poise = { version = "0.6", default-features = false, features = ["cache"] }
tracing-subscriber = { version = "0.3", default-features = false, features = ["fmt", "json"] }
