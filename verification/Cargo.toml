[package]
name = "hoststats"
version = "0.1.0"
edition = "2021"
publish = false

[dependencies]
actix-web = "4"
minify = "1"
systemstat = "*"
