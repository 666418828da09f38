[package]
name = "repogate"
version = "0.1.0"
edition = "2021"
publish = false

[dependencies]
anyhow = "1"
blake3 = { version = "1", features = ["pure"] }
clap = { version = "4", features = ["derive"] }
ignore = "0.4"
minijinja = "2"
pulldown-cmark = { version = "0.12", default-features = false, features = ["html"] }
schemars = "0.8"
serde = { version = "1", features = ["derive"] }
serde_json = "1"
spdx = "0.10"
tempfile = "3"
thiserror = "1"
tokio = { version = "1", features = ["rt-multi-thread", "macros", "process", "sync", "fs"] }
toml = "0.8"
tracing = "0.1"
tracing-subscriber = "0.3"
uuid = { version = "1", features = ["v4"] }
walkdir = "2"
