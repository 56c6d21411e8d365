[package]
name = "codewarp"
version = "0.1.0"
edition = "2021"
publish = false

[dependencies]
serde_json = "=1.0.154"
dirs = "=6.0.0"
ignore = "=0.4.34"
tokio = { version = "=1.54.1", features = ["rt-multi-thread", "macros", "fs", "process", "time"] }
similar = "2"
