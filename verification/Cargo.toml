[package]
name = "gimbal_control"
version = "0.1.0"
edition = "2021"
publish = false

[dependencies]
crossterm = "0.28"
gilrs = "0.11"
ratatui = "0.29"
serde = { version = "1", features = ["derive"] }
toml = "0.8"
