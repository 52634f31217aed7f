[package]
name = "lignin_html"
version = "0.1.0"
edition = "2021"
publish = false

[dependencies]
lignin = "*"
