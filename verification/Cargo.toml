[package]
name = "danke"
version = "0.1.0"
edition = "2021"
publish = false

[dependencies]
argh = "0.1"
miniserde = "0.1"
