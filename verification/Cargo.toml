[package]
name = "wifi_handler"
version = "0.1.0"
edition = "2021"
publish = false

[dependencies]
heapless = "=0.8.0"
smoltcp = { version = "=0.11.0", default-features = false, features = ["medium-ethernet", "proto-ipv4", "socket-tcp"] }
esp-hal = { version = "=0.20.1", features = ["esp32c6"] }
esp-wifi = { version = "=0.9.1", features = ["esp32c6", "wifi", "utils", "tcp"] }
esp-println = { version = "=0.11.0", features = ["esp32c6"] }
