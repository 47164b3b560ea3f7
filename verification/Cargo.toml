[package]
name = "bevy_nannou_render"
version = "0.1.0"
edition = "2021"
publish = false

[dependencies]
bevy = { version = "0.14", default-features = false }
lyon = "1"
nannou_core = "0.19"
