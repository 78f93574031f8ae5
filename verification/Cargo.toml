[package]
name = "wasm_link"
version = "0.1.0"
edition = "2021"
publish = false

[dependencies]
os_bootinfo = "=0.2.1"
x86_64 = "=0.14.13"
