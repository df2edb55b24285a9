[package]
name = "post_markup"
version = "0.1.0"
edition = "2021"
publish = false

[dependencies]
html-escape = "*"
linked-hash-map = "*"
