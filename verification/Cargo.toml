[package]
name = "graphics"
version = "0.1.0"
edition = "2021"
publish = false

[dependencies]
uuid = "=1.29.0"
getrandom = "=0.4.3"
blend = "=0.9.0"
libflate = "=2.3.2"
