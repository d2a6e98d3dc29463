[package]
name = "specs_blit"
version = "0.1.0"
edition = "2021"
publish = false

[dependencies]
anyhow = "1.0"
blit = { version = "0.5", default-features = false }
lazy_static = "1.4"
rotsprite = "0.1"
specs = { version = "0.16", default-features = false }
