[package]
name = "net_joystick"
version = "0.1.0"
edition = "2021"
publish = false

[dependencies]
evdev = { version = "0.12", features = ["tokio"] }
input-linux = "*"
tokio = { version = "1", features = ["rt", "rt-multi-thread"] }
log = "0.4"
env_logger = "*"
