[package]
name = "failos"
version = "0.1.0"
edition = "2021"
publish = false

[dependencies]
x86_64 = "=0.14.13"
bootloader_api = "=0.11.17"
pic8259 = "=0.10.4"
