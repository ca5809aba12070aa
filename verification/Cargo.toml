[package]
name = "anime_gif_generator"
version = "0.1.0"
edition = "2021"
publish = false

[dependencies]
gif = "*"
clap = { version = "*", features = ["derive"] }
opencv = "*"
