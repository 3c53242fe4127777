[package]
name = "dap-rs"
version = "0.1.0"
edition = "2021"
publish = false

[dependencies]
defmt = "0.3"
usb-device = "0.3"
