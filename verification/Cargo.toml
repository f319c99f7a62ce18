[package]
name = "atum"
version = "0.1.0"
edition = "2021"
publish = false

[dependencies]
idsp = "=0.23.1"
uom = "=0.38.0"
log = "=0.4.34"
vexide = "=0.8.0"
bytemuck = { version = "1", features = ["derive"] }
futures-lite = "*"
slint = { version = "=1.18.1", default-features = false, features = ["compat-1-2", "unsafe-single-threaded", "libm"] }
