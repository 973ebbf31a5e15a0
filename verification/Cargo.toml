[package]
name = "pico_lte_proxy"
version = "0.1.0"
edition = "2021"
publish = false

[dependencies]
heapless = "=0.8.0"
cyw43 = "=0.7.0"
defmt = "=1.2.0"
defmt-rtt = "=1.3.1"
embassy-executor = "=0.9.1"
embassy-net = { version = "=0.9.1", features = ["tcp", "proto-ipv4", "medium-ethernet"] }
embassy-sync = "=0.8.0"
embassy-time = "=0.5.1"
embedded-io-async = "=0.7.0"
panic-probe = "=1.0.0"
static_cell = "=2.1.1"
