[package]
name = "warp_foss"
version = "0.1.0"
edition = "2021"
publish = false

[dependencies]
regex = "*"
portable-pty = "*"
serde = { version = "*", features = ["derive"] }
toml = "*"
dirs = "*"
anyhow = "*"
