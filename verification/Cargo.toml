[package]
name = "quocktail"
version = "0.1.0"
edition = "2021"
publish = false

[dependencies]
camino = "1"
clap = { version = "4", features = ["derive"] }
color-eyre = "0.6"
convert_case = "0.6"
enable-ansi-support = "0.2"
owo-colors = "4"
pulldown-cmark = { version = "0.11", default-features = false }
rand = "0.8"
supports-color = "3"
walkdir = "2"
yaml-rust = "0.4"
