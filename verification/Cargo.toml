[package]
name = "oskernel"
version = "0.1.0"
edition = "2021"
publish = false

[dependencies]
xmas-elf = "0.9"
log = "0.4"
ext4_rs = "*"
