[package]
name = "tuber"
version = "0.1.0"
edition = "2021"
publish = false

[dependencies]
clap = { version = "4", features = ["derive"] }
glob = "0.3"
home-dir = "*"
ulid = "1"
