[package]
name = "cc_driver"
version = "0.1.0"
edition = "2021"
publish = false

[dependencies]
amiquip = "=0.4.2"
crossbeam-channel = "=0.5.17"
fs_extra = "=1.3.0"
libc = "*"
log = "=0.4.34"
log4rs = "=1.4.0"
nix = { version = "=0.31.3", features = ["event", "fs", "signal"] }
serde = { version = "=1.0.229", features = ["derive"] }
serde_json = "=1.0.151"
