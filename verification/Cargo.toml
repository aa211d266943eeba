[package]
name = "systray"
version = "0.1.0"
edition = "2021"
publish = false

[dependencies]
base64 = "=0.22.1"
image = "=0.25.10"
rand = "=0.9.5"
napi = "*"
napi-derive = "*"
objc2-core-foundation = "*"
tao = "*"
tray-icon = "*"
