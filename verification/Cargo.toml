[package]
name = "anchor_dev"
version = "0.1.0"
edition = "2021"
publish = false

[dependencies]
regex = "1"
clap = { version = "4", features = ["derive"] }
walkdir = "2"
log = "0.4"
simplelog = "0.12"
lazy_static = "1"
anyhow = "1"
