[package]
name = "repokit"
version = "0.1.0"
edition = "2021"
publish = false

[dependencies]
alphanumeric-sort = "*"
colored = "*"
futures = "*"
lexopt = "*"
normalize-path = "*"
serde = { version = "*", features = ["derive"] }
serde_json = "*"
tokio = { version = "*", features = ["rt-multi-thread"] }
walkdir = "*"
