[package]
name = "oi"
version = "0.1.0"
edition = "2021"
publish = false

[dependencies]
clap = { version = "4", features = ["derive"] }
indoc = "2"
libc = "0.2"
