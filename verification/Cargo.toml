[package]
name = "kvothe"
version = "0.1.0"
edition = "2021"
publish = false

[dependencies]
anyhow = "1"
cpal = "*"
crossterm = "*"
ratatui = "*"
ringbuf = "0.4"
rustfft = "6"
num = "0.4"
num-complex = "0.4"
