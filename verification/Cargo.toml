[package]
name = "bevy_peacock"
version = "0.1.0"
edition = "2021"
publish = false

[dependencies]
anyhow = "1"
bevy = { version = "0.12", default-features = false }
proc-macro2 = "1"
quote = "1"
syn = "2"

[dev-dependencies]
winnow = "0.5"
