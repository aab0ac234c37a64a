[package]
name = "sdf"
version = "0.1.0"
edition = "2021"
publish = false

[dependencies]
peakbag = "*"
sdc = "*"
libc = "0.2"
log = "0.3"
docopt = "0.7"
env_logger = "0.4"
rustc-serialize = "0.3"
