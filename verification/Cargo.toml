[package]
name = "rcore_kernel"
version = "0.1.0"
edition = "2021"
publish = false

[dependencies]
bit_field = "0.10"
hashbrown = "0.7"
xmas-elf = "0.7"
