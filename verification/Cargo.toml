[package]
name = "looper"
version = "0.1.0"
edition = "2021"
publish = false

[dependencies]
ringbuf = "0.4"
hound = "3"
cpal = "0.15"
