[package]
name = "qbar"
version = "0.1.0"
edition = "2021"
publish = false

[dependencies]
rational_deduction = "*"
terminal = "*"
