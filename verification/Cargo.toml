[package]
name = "bootmem"
version = "0.1.0"
edition = "2021"
publish = false

[dependencies]
buddy_system_allocator = "=0.13.0"
fdt = "=0.1.5"
log = "=0.4.34"
spin = "=0.10.1"
