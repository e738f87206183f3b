[package]
name = "handheld_frontend"
version = "0.1.0"
edition = "2021"
publish = false

[dependencies]
anyhow = "1"
font8x8 = "0.3"
gpio-cdev = "*"
libc = "0.2"
rppal = "*"
tui-realm-stdlib = "*"
tuirealm = "*"
