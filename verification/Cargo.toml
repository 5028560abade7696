[package]
name = "taikrust"
version = "0.1.0"
edition = "2021"
publish = false

[dependencies]
bevy = { version = "=0.5.0", default-features = false }
darling = "=0.10.2"
