[package]
name = "localchat"
version = "3.0.0"
edition = "2021"
publish = false

[dependencies]
base64 = "0.22"
chacha20poly1305 = "0.10"
chrono = "0.4"
crossterm = "0.27"
rand = "0.8"
ratatui = "0.26"
x25519-dalek = "2"
