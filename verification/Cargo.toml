[package]
name = "zigzag"
version = "0.1.0"
edition = "2021"
publish = false

[dependencies]
ansi_term = "0.12"
fuzzy-matcher = "0.3"
owo-colors = "*"
zellij-tile = "0.41"
