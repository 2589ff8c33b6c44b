[package]
name = "hotkeys_blocker"
version = "0.1.0"
edition = "2021"
publish = false

[dependencies]
anyhow = "1"
core-foundation = "0.9"
core-graphics = "0.23"
tokio = { version = "1", features = ["macros", "rt-multi-thread", "sync", "time"] }
