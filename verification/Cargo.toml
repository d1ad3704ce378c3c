[package]
name = "sauna_monitor"
version = "0.1.0"
edition = "2021"
publish = false

[dependencies]
heapless = "0.8"
onewire = "*"
wio_terminal = "*"
cortex-m = "*"
embedded-graphics = "*"
