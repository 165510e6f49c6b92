[package]
name = "monkeyos"
version = "0.1.0"
edition = "2021"
publish = false

[dependencies]
syscalls = { version = "=0.8.1", default-features = false }
buddy_system_allocator = "=0.10.0"
virtio-drivers = "=0.7.5"
polyhal = "=0.3.2"
polyhal-boot = "=0.3.2"
polyhal-trap = "=0.3.2"
log = "=0.4.35"
