[package]
name = "chronos"
version = "0.1.0"
edition = "2021"
publish = false

[dependencies]
lazy_static = { version = "=1.5.1", features = ["spin_no_std"] }
limine = "=0.5.0"
linked_list_allocator = "=0.10.6"
noto-sans-mono-bitmap = "=0.3.2"
pc-keyboard = "=0.8.0"
pic8259 = "=0.11.0"
spin = "=0.9.9"
x86_64 = { version = "=0.15.5", default-features = false, features = ["instructions"] }
