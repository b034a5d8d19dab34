[package]
name = "nkro_hid"
version = "0.1.0"
edition = "2021"
publish = false

[dependencies]
keyberon = "=0.1.1"
embedded-hal = "=0.2.7"
rp-pico = "=0.7.0"
usbd-hid = "=0.6.2"
