[package]
name = "gh_pr_tui"
version = "0.1.0"
edition = "2021"
publish = false

[dependencies]
crossterm = "0.28"
dirs = "5"
dotenvy = "0.15"
ratatui = "0.29"
reqwest = { version = "0.12", default-features = false, features = ["blocking", "json", "rustls-tls"] }
serde = { version = "1", features = ["derive"] }
serde_json = "1"
