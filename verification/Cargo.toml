[package]
name = "rsign"
version = "0.1.0"
edition = "2021"
publish = false

[dependencies]
sodiumoxide = "0.2.7"
base64 = "0.13"
