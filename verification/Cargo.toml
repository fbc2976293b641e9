[package]
name = "bonfire"
version = "0.1.0"
edition = "2021"
publish = false

[dependencies]
ulid = "1"
log = "0.4"
once_cell = "1"
deadqueue = { version = "0.2", features = ["limited"] }
async-std = "1"
