[package]
name = "backroll"
version = "0.1.0"
edition = "2021"
publish = false

[dependencies]
async-channel = "1.6"
parking_lot = "0.11"
tracing = "0.1"
