[package]
name = "folder_player"
version = "0.1.0"
edition = "2021"
publish = false

[dependencies]
rodio = "0.17"
miniquad = "0.4"
image = { version = "0.24", default-features = false, features = ["png"] }
