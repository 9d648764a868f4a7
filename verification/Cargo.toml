[package]
name = "bluetty"
version = "1.0.1"
edition = "2021"
publish = false

[dependencies]
anyhow = "1"
ini = "1"
nix = { version = "0.30", features = ["fs", "poll", "process", "signal", "term"] }
shell-words = "1"
tokio = { version = "1", features = ["macros", "rt-multi-thread", "signal", "sync", "time"] }
tracing = "0.1"
tracing-subscriber = { version = "0.3", features = ["env-filter"] }
zbus = "5"
