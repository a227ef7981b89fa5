[package]
name = "dotmgr"
version = "0.1.0"
edition = "2021"
publish = false

[dependencies]
sha2 = "0.10"
crossterm = "0.28"
ratatui = "0.29"
tokio = { version = "1", features = ["rt-multi-thread", "macros", "sync"] }
dirs = "6"
serde = { version = "1", features = ["derive"] }
toml = "0.8"
