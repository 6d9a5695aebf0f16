[package]
name = "commitguard"
version = "0.1.0"
edition = "2021"
publish = false

[dependencies]
clap = { version = "4", features = ["derive"] }
config = "*"
miette = { version = "*", features = ["fancy"] }
serde = { version = "1", features = ["derive"] }
