[package]
name = "dotool"
version = "0.1.0"
edition = "2021"
publish = false

[dependencies]
uinput = { version = "=0.1.3", default-features = false }
