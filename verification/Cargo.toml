[package]
name = "yowl"
version = "0.1.0"
edition = "2021"
publish = false

[dependencies]
cpal = "*"
libc = "*"
log = "*"
whisper-rs = "*"
