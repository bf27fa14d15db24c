[package]
name = "chip8"
version = "1.0.0"
edition = "2021"
publish = false

[dependencies]
clap = { version = "3.2", features = ["derive"] }
macroquad = { version = "0.3", default-features = false }
rand = "0.8"
