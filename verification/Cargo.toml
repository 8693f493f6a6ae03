[package]
name = "stylua"
version = "0.1.0"
edition = "2021"
publish = false

[dependencies]
anyhow = "1.0"
full_moon = "0.10"
serde = { version = "1.0", features = ["derive"] }
serde_ini = "0.2"
toml = "0.5"
