[package]
name = "osc_led"
version = "0.1.0"
edition = "2021"
publish = false

[dependencies]
anyhow = "1"
log = "0.4"
smart-leds = "*"

[dev-dependencies]
rosc = "*"
