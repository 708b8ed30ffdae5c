[package]
name = "bundle_fs"
version = "0.1.0"
edition = "2021"
publish = false

[dependencies]
anyhow = "1"
term = "*"
walkdir = "2"
