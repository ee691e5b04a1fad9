[package]
name = "config_format"
version = "0.1.0"
edition = "2021"
publish = false

[dependencies]
serde_json = "=1.0.154"
toml = "=1.1.8"
yaml-rust = "=0.4.5"
serde-hjson = "=1.1.0"
rust-ini = "=0.21.3"
