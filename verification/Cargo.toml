[package]
name = "zcore_ebpf"
version = "0.1.0"
edition = "2021"
publish = false

[dependencies]
xmas-elf = "0.7"
riscv-decode = "0.2"
dyn-fmt = "0.3"
lazy_static = "1"
log = "0.4"
