[package]
name = "rustjammers_engine"
version = "0.1.0"
edition = "2021"
publish = false

[dependencies]
rand = "0.6"
bitflags = "1"
bincode = "1"
