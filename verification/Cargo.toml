[package]
name = "ox"
version = "0.1.0"
edition = "2021"
publish = false

[dependencies]
termion = "1.5"
unicode-width = "=0.1.8"
