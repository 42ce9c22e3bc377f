[package]
name = "battleplanes_web"
version = "0.1.0"
edition = "2021"
publish = false

[dependencies]
env_logger = "*"
iron = "*"
maud = "*"
mount = "*"
router = "*"
staticfile = "*"
