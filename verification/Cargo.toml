[package]
name = "ox"
version = "0.2.0"
edition = "2021"
publish = false

[dependencies]
termion = "1.5"
unicode-width = "0.1"
