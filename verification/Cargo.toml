[package]
name = "nccl_harness"
version = "0.1.0"
edition = "2021"
publish = false

[dependencies]
regex = "*"
log = "*"
env_logger = "*"
prettytable-rs = "*"
termion = "*"
polars = { version = "*", default-features = false }
