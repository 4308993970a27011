[package]
name = "editor_nostd"
version = "0.1.0"
edition = "2021"
publish = false

[dependencies]
pc-keyboard = "0.8"
