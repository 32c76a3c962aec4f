[package]
name = "mergebom"
version = "0.1.0"
edition = "2021"
publish = false

[dependencies]
regex = "1"
calamine = "0.18"
xlsxwriter = "0.3"
clap = "2"
