[package]
name = "laser_tools"
version = "0.1.0"
edition = "2021"
publish = false

[dependencies]
quick-xml = "=0.38.4"
clap = { version = "=4.6.7", features = ["derive"] }
image = { version = "=0.25.10", default-features = false, features = ["png", "jpeg"] }
vtracer = { version = "=0.6.5", default-features = false }
