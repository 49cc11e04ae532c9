[package]
name = "amx"
version = "0.1.0"
edition = "2021"

[dependencies]
cfg-if = "1"
