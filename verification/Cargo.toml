[package]
name = "data_explorer"
version = "0.1.0"
edition = "2021"
publish = false

[dependencies]
arrow = { version = "=60.0.0", default-features = false }
serde = { version = "=1.0.229", features = ["derive"] }
thiserror = "=1.0.69"
