[package]
name = "mac_privacy_dissector"
version = "0.1.0"
edition = "2021"
publish = false

[dependencies]
thiserror = "*"
wsdf = "*"
