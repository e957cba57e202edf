[package]
name = "anki_counts"
version = "0.1.0"
edition = "2021"
publish = false

[dependencies]
anki = "*"
clap = { version = "*", features = ["derive"] }
color-eyre = "*"
