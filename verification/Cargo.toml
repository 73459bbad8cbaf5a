[package]
name = "sommerfluss_ipc"
version = "0.1.0"
edition = "2021"
publish = false

[dependencies]
xkbcommon = { version = "0.8", default-features = false }
