[package]
name = "worktree-explorer"
version = "0.1.0"
edition = "2021"
publish = false

[dependencies]
anyhow = "=1.0.104"
clap = { version = "=4.6.7", features = ["derive"] }
crossterm = "=0.29.0"
gix = "=0.87.1"
ratatui = "=0.30.2"

[dev-dependencies]
tempfile = "=3.27.0"
