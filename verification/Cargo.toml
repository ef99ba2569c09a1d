[package]
name = "dc_api_core"
version = "0.1.0"
edition = "2021"
publish = false

[dependencies]
json = "*"
libloading = "*"
threadpool = "*"
bufstream = "*"
byteorder = "*"
