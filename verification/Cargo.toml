[package]
name = "smt160_driver"
version = "0.1.0"
edition = "2021"
publish = false

[dependencies]
fixed = "=1.31.0"
bitflags = "=2.13.2"
critical-section = { version = "=1.2.0", features = ["std"] }
embedded-hal = "=1.0.0"
embedded-hal-async = "=1.0.0"
embedded-storage = "=0.3.2"
embassy-sync = "=0.6.2"
fugit = "=0.3.9"
portable-atomic = "=1.15.0"
rtic-monotonics = "=2.2.1"
serde = { version = "=1.0.229", features = ["derive"] }
stm32f1xx-hal = { version = "=0.10.0", features = ["stm32f103"] }
rp2040-hal = "=0.10.2"
pio = "=0.2.1"
pio-proc = "=0.2.2"
