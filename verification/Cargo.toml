[package]
name = "tetromino"
version = "0.1.0"
edition = "2021"
publish = false

[dependencies]
rand = "*"
macroquad = { version = "*", default-features = false }
