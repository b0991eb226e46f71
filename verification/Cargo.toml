[package]
name = "libdeflate_zran"
version = "0.1.0"
edition = "2021"
publish = false

[dependencies]
libdeflate-zran-sys = "*"
