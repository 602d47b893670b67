[package]
name = "snake_core"
version = "0.1.0"
edition = "2021"
publish = false

[dependencies]
rand = "=0.7.3"
bevy = { version = "=0.5.0", default-features = false, features = ["render"] }
num_enum = { version = "=0.4.3", features = ["complex-expressions"] }
