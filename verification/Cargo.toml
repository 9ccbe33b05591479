[package]
name = "just_code"
version = "0.1.0"
edition = "2021"
publish = false

[dependencies]
convert_case = "0.6.0"
git2 = { version = "*", default-features = false }
simple-home-dir = "*"
thiserror = "*"
toml = "*"
tuple-map = "*"
