[package]
name = "os_by_rust"
version = "0.1.0"
edition = "2021"
publish = false

[dependencies]
crossbeam-queue = { version = "0.3", default-features = false, features = ["alloc"] }
conquer-once = { version = "0.4", default-features = false }
futures-util = { version = "0.3", default-features = false, features = ["alloc"] }
pc-keyboard = "0.7"
spin = "0.9"
x86_64 = { version = "0.15", default-features = false, features = ["instructions"] }
uart_16550 = "0.3"
lazy_static = { version = "1", features = ["spin_no_std"] }
futures = "0.3"
tokio = { version = "1", features = ["rt-multi-thread", "macros"] }
