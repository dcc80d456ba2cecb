[package]
name = "eggie_ui"
version = "0.1.0"
edition = "2021"
publish = false

[dependencies]
anyhow = "1"
crossterm = "0.28"
libc = "0.2"
parking_lot = "0.12"
pulldown-cmark = { version = "0.12", default-features = false }
ratatui = "0.29"
rmp-serde = "1"
serde = { version = "1", features = ["derive"] }
sysinfo = "0.31"
