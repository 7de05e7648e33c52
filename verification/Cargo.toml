[package]
name = "rurl"
version = "0.1.0"
edition = "2021"

[dependencies]
native-tls = "0.2"
