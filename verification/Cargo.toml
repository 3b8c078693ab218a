[package]
name = "merge_discs"
version = "0.1.0"
edition = "2021"
publish = false

[dependencies]
bevy = { version = "*", default-features = false }
bevy_rapier2d = { version = "0.36", default-features = false, features = ["dim2"] }
