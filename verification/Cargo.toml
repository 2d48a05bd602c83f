[package]
name = "bcpl_frontend"
version = "0.1.0"
edition = "2021"
publish = false

[dependencies]
colorize = "*"
