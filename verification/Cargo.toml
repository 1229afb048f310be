[package]
name = "stopwatch"
version = "0.1.0"
edition = "2021"
publish = false

[dependencies]
time = { version = "0.3", default-features = false }
num-integer = { version = "0.1", default-features = false }
embedded-hal = "0.2"
hd44780-driver = "0.4"
lazy_static = "1"
stm32f4xx-hal = { version = "*", features = ["stm32f411"] }
rtic = { version = "*", features = ["thumbv7-backend"] }
panic-probe = "*"
rtt-target = "*"
