[package]
name = "musicbox"
version = "0.1.0"
edition = "2021"
publish = false

[dependencies]
lofty = "0.22"
symphonia = { version = "0.5", default-features = false }
