[package]
name = "g_cli"
version = "0.1.0"
edition = "2021"
publish = false

[dependencies]
anyhow = "1"
clap = { version = "4", features = ["derive"] }
git2 = { version = "*", default-features = false }
inquire = "*"
rand = "*"
rodio = "*"
rust-embed = "*"
serde = { version = "1", features = ["derive"] }
serde_json = "1"
