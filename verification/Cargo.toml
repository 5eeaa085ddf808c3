[package]
name = "p2p_core"
version = "0.1.0"
edition = "2021"
publish = false

[dependencies]
smol = "*"
futures = "*"
log = "*"
async-executor = "*"
