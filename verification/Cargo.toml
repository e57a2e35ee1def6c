[package]
name = "crontimes"
version = "0.1.0"
edition = "2021"
publish = false

[dependencies]
arrow-array = "=59.3.2"
arrow-schema = "=59.3.2"
chrono = "=0.4.45"
chrono-tz = "=0.10.4"
croner = "=3.0.1"
env_logger = "=0.11.11"
log = "=0.4.35"
vgi = "=0.14.0"
vgi-rpc = "=0.8.0"
