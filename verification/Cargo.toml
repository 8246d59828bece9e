[package]
name = "muxfin"
version = "0.2.2"
edition = "2021"
publish = false

[dependencies]
anyhow = "1"
bytes = "1"
clap = { version = "4", features = ["derive"] }
indicatif = "*"
mkv-element = "*"
serde = { version = "1", features = ["derive"] }
serde_json = "1"

[dev-dependencies]
dissonia = "*"
matroska-demuxer = "*"
