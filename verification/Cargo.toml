[package]
name = "luna_farm"
version = "0.1.0"
edition = "2021"
publish = false

[dependencies]
anathema = "=0.1.0"
crossterm = "=0.29.0"
image = "=0.24.9"
rand = "=0.8.8"
serde = { version = "=1.0.229", features = ["derive"] }
serde_json = "=1.0.154"
thiserror = "=1.0.69"
unicode-width = "=0.1.14"
