[package]
name = "bci_core"
version = "0.1.0"
edition = "2021"
publish = false

[dependencies]
serde = { version = "1", features = ["derive"] }
serde_json = "1"
ureq = { version = "2", features = ["json"] }
ratatui = "0.29"
crossterm = "0.28"
color-eyre = "0.6"
