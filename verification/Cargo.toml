[package]
name = "versionize_helpers"
version = "0.1.0"
edition = "2021"
publish = false

[dependencies]
syn = "1"
quote = "1"
