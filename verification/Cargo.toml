[package]
name = "orthos"
version = "0.1.0"
edition = "2021"
publish = false

[dependencies]
comrak = { version = "*", default-features = false }
typst = "*"
typst-pdf = "*"
chrono = "*"
clap = { version = "*", features = ["derive"] }
miette = { version = "*", features = ["fancy"] }
