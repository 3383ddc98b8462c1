[package]
name = "mouse-unlock"
version = "0.1.0"
edition = "2021"
publish = false

[dependencies]
argon2 = "0.5"
evdev = "0.12"
libc = "0.2"
rand_core = { version = "0.6", features = ["getrandom"] }
ratatui = "0.29"
