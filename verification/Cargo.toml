[package]
name = "bootiful-plymouth-discovery"
version = "0.1.0"
edition = "2021"
publish = false

[dependencies]
sha2 = "0.10"
serde = { version = "1", features = ["derive"] }
serde_json = "1"
clap = { version = "4", features = ["derive"] }
chrono = "0.4"
glob = "0.3"
walkdir = "2"
libc = "0.2"
anyhow = "1"

[dev-dependencies]
regex = "1"
