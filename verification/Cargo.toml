[package]
name = "openai_proxy"
version = "0.1.0"
edition = "2021"

[dependencies]
wit-bindgen = "*"
