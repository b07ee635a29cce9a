[package]
name = "armature-ratelimit"
version = "0.4.0"
edition = "2021"
publish = false

[dependencies]
dashmap = "6"
serde_json = "1"
async-trait = "0.1"
thiserror = "2"
tracing = "0.1"
tokio = { version = "1", features = ["macros", "rt", "rt-multi-thread", "sync", "time"] }
redis = { version = "0.27", features = ["tokio-comp", "connection-manager"] }
