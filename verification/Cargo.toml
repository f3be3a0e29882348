[package]
name = "brydz_bots"
version = "0.1.0"
edition = "2021"
publish = false

[dependencies]
brydz_core = "=0.1.1"
rand = "0.8"
