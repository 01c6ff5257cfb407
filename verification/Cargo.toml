[package]
name = "cargo-loom"
version = "0.1.0"
edition = "2021"
publish = false

[dependencies]
atty = "0.2"
camino = "1"
cargo_metadata = "0.14"
clap = { version = "3", features = ["derive", "env"] }
clap-cargo = { version = "0.8", features = ["cargo_metadata"] }
color-eyre = { version = "0.6", features = ["issue-url"] }
escargot = { version = "0.5", features = ["test_unstable"] }
heck = "0.3"
owo-colors = { version = "3", features = ["supports-colors"] }
serde_json = "1"
tokio = { version = "1", features = ["rt-multi-thread", "macros", "process"] }
tracing = "0.1"
tracing-subscriber = { version = "0.3", features = ["env-filter", "json"] }
