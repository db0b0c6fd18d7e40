[package]
name = "esplugin"
version = "0.1.0"
edition = "2021"
publish = false

[dependencies]
byteorder = "1"
encoding = "0.2"
encoding_rs = "0.8"
flate2 = "1"
libc = "0.2"
unicase = "2"
