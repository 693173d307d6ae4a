[package]
name = "dark_cli"
version = "0.1.0"
edition = "2021"
publish = false

[dependencies]
clap = "=4.6.7"
humansize = "=2.1.3"
reqwest = { version = "=0.13.5", default-features = false, features = ["blocking", "multipart", "gzip"] }
walkdir = "=2.5.0"
