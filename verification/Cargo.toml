[package]
name = "yaavre"
version = "0.1.0"
edition = "2021"
publish = false

[dependencies]
byteorder = "1"
clap = "2"
hex = "0.4"
signal-notify = "0.1"
