[package]
name = "m24c64_driver"
version = "0.1.0"
edition = "2021"
publish = false

[dependencies]
embedded-hal = "1"
embedded-hal-async = "1"
