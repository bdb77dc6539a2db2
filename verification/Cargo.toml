[package]
name = "bvh_write"
version = "0.1.0"
edition = "2021"
publish = false

[dependencies]
bstr = "0.1"
