[package]
name = "descriptor_setup"
version = "0.1.0"
edition = "2021"
publish = false

[dependencies]
liana = { version = "=2.0.0", default-features = false }
async-hwi = "=0.0.35"
