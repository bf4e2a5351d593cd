[package]
name = "opendp"
version = "0.1.0"
edition = "2021"
publish = false

[dependencies]
rand = "0.8"
ieee754 = "0.2"
thiserror = "1"
fixed = "1"
