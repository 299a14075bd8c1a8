[package]
name = "zenoh_proto"
version = "0.1.0"
edition = "2021"
publish = false

[dependencies]
hex = "*"
http-types = "*"
uhlc = "*"
uuid = "*"
