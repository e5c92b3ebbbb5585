[package]
name = "pdf2john"
version = "0.1.0"
edition = "2021"
publish = false

[dependencies]
hex = "=0.4.3"
lopdf = "=0.34.0"
