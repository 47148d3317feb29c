[package]
name = "oskernel"
version = "0.1.0"
edition = "2021"
publish = false

[dependencies]
crossbeam-queue = "=0.2.3"
pc-keyboard = "=0.5.1"
x86_64 = { version = "=0.15.5", default-features = false, features = ["instructions"] }
lazy_static = "=1.5.1"
spin = "=0.5.2"
volatile = "=0.2.7"
pic8259 = "=0.10.4"
bootloader = { version = "=0.9.35", features = ["map_physical_memory"] }
futures-util = { version = "=0.3.34", default-features = false, features = ["alloc"] }
