[package]
name = "nrf_smartled"
version = "0.1.0"
edition = "2021"
publish = false

[dependencies]
nrf52840-hal = "*"
smart-leds-trait = "*"
