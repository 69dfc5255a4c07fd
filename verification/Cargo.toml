[package]
name = "kb"
version = "1.2.0"
edition = "2021"
publish = false

[dependencies]
anyhow = "1"
clap = "2"
notify-rust = "4"
