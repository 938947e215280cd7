[package]
name = "qyoobs_vnc"
version = "0.1.0"
edition = "2021"
publish = false

[dependencies]
anyhow = "1"
argh = "0.1"
dialoguer = "0.11"
libc = "0.2"
x11 = { version = "2", features = ["xlib", "xinerama"] }
