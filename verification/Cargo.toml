[package]
name = "sony-headphones-tray"
version = "0.1.0"
edition = "2021"
publish = false

[dependencies]
ksni = { version = "0.3", features = ["blocking"] }
libc = "0.2"
zbus = "5"
