[package]
name = "inline_java"
version = "0.1.0"
edition = "2021"
publish = false

[dependencies]
dirs = "*"
fd-lock = "*"
litrs = "*"
proc-macro2 = { version = "*", features = ["span-locations"] }
shellexpand = "*"
thiserror = "*"
