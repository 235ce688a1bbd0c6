[package]
name = "novelagent"
version = "0.1.0"
edition = "2021"
publish = false

[dependencies]
anyhow = "=1.0.104"
dotenvy = "=0.15.7"
inventory = "=0.3.25"
rig-core = "=0.40.0"
serde = { version = "=1.0.229", features = ["derive"] }
serde_json = "=1.0.154"
thiserror = "=2.0.21"
tokio = { version = "=1.54.1", features = ["macros", "rt-multi-thread"] }
topcoat = "=0.5.0"
topcoat-asset = "=0.5.0"
topcoat-core = "=0.5.0"
topcoat-core-macro = "=0.5.0"
topcoat-router = "=0.5.0"
topcoat-router-macro = "=0.5.0"
topcoat-runtime = "=0.5.0"
topcoat-runtime-macro = "=0.5.0"
topcoat-view = "=0.5.0"
topcoat-view-macro = "=0.5.0"
