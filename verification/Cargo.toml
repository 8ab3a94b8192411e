[package]
name = "photo_scan"
version = "0.1.0"
edition = "2021"
publish = false

[dependencies]
anyhow = "*"
clap = { version = "*", features = ["derive"] }
opencv = "*"
walkdir = "*"
