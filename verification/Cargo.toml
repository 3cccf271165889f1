[package]
name = "esp-rs-pad"
version = "0.1.0"
edition = "2021"
publish = false

[dependencies]
bit-vec = "*"
anyhow = "*"
log = "*"
esp-idf-hal = "*"
esp-idf-sys = "*"
esp-idf-svc = "*"
esp32-nimble = "*"
