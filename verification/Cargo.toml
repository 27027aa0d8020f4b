[package]
name = "readable_url"
version = "0.1.0"
edition = "2021"

[dependencies]
html5ever = "=0.39.0"
markup5ever = "=0.39.0"
markup5ever_rcdom = "=0.39.0+unofficial"
tendril = "=0.5.1"
readability = "=0.3.0"
