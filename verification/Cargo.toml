[package]
name = "studies"
version = "0.1.0"
edition = "2021"
publish = false

[dependencies]
rand = "0.8"
crc = "3"
futures = "0.3"
num = "0.4"
