[package]
name = "commit_picker"
version = "0.1.0"
edition = "2021"
publish = false

[dependencies]
chrono = "0.4"
clap = "2"
colored = "2"
device_query = "0.2"
gh-emoji = "1"
git2 = "0.13"
reqwest = { version = "0.11", features = ["json"] }
serde = { version = "1", features = ["derive"] }
tempdir = "0.3"
terminal_size = "0.1"
tokio = { version = "1", features = ["macros", "rt-multi-thread"] }
