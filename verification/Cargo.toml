[package]
name = "hw_cpu"
version = "0.1.0"
edition = "2021"
publish = false

[dependencies]
time = { version = "*", features = ["local-offset"] }
serialport = { version = "*", default-features = false }
systemstat = "*"
log = "*"
env_logger = "*"
embedded-graphics = "*"

[dev-dependencies]
postcard = { version = "*", features = ["alloc"] }
