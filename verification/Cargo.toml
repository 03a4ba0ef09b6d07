[package]
name = "surf_ace_compositor"
version = "0.1.0"
edition = "2021"
publish = false

[dependencies]
png = "*"
smithay = { version = "*", default-features = false }
thiserror = "*"
