[package]
name = "digital_rain"
version = "0.1.0"
edition = "2021"
publish = false

[dependencies]
rand = "0.7"
terminal_size = "0.1"
unicode-width = "0.1"
