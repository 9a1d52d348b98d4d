[package]
name = "chess0x88"
version = "0.1.0"
edition = "2021"
publish = false
