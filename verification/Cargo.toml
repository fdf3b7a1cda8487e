[package]
name = "nosso_os"
version = "0.1.0"
edition = "2021"
publish = false

[dependencies]
bootloader_api = "=0.11.17"
x86_64 = { version = "=0.15.5", default-features = false, features = ["instructions"] }
noto-sans-mono-bitmap = "=0.3.2"
pic8259 = { version = "=0.11.0", default-features = false, features = ["stable"] }
spin = "=0.9.9"
linked_list_allocator = "=0.10.6"
