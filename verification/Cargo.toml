[package]
name = "netproto"
version = "0.1.0"
edition = "2021"
publish = false

[dependencies]
byteorder = "1"
bit_field = "0.10"
