[package]
name = "redirect_https"
version = "0.1.0"
edition = "2021"
publish = false

[dependencies]
futures = "0.3"
ntex = "*"
