[package]
name = "led_thermometer"
version = "0.1.0"
edition = "2021"
publish = false

[dependencies]
nb = "=1.1.0"
panic-halt = "=1.0.0"
ufmt = { version = "=0.2.0", features = ["std"] }
