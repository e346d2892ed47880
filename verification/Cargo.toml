[package]
name = "blender_launcher"
version = "0.1.0"
edition = "2021"
publish = false

[dependencies]
natord = "*"
reqwest = { version = "*", default-features = false, features = ["blocking"] }
