[package]
name = "rsime"
version = "0.1.0"
edition = "2021"
publish = false

[dependencies]
ansi-to-tui = "8.0"
anyhow = "1"
clap = { version = "4", features = ["derive"] }
clap_complete = "4"
crossterm = "0.29"
libc = "0.2"
ratatui = "0.30"
serde = { version = "1", features = ["derive"] }
serde_json = "1"
ureq = "3"
