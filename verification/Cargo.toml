[package]
name = "isis"
version = "0.1.0"
edition = "2021"
publish = false

[dependencies]
bevy = { version = "0.8", default-features = false }
smallvec = "1"
bitflags = "1"
once_cell = "1"
rand = "0.8"
