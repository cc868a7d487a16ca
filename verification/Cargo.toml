[package]
name = "tab_bar"
version = "0.1.0"
edition = "2021"
publish = false

[dependencies]
ratatui = { version = "0.29", default-features = false }
serde = { version = "1", features = ["derive"] }
time = { version = "0.3", default-features = false, features = ["formatting", "parsing"] }
