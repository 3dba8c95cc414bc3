[package]
name = "teeny"
version = "0.1.0"
edition = "2021"
publish = false

[dependencies]
miette = { version = "7", features = ["fancy"] }
clap = { version = "4", features = ["derive"] }
