[package]
name = "toboggan_esp32"
version = "0.1.0"
edition = "2021"
publish = false

[dependencies]
anyhow = "1"
log = "0.4"
serde = { version = "1", features = ["derive"] }
serde_json = "1"
heapless = "0.9"
embedded-graphics = "0.8"
tinybmp = "0.6"
mipidsi = "0.9"
gt911 = "0.3"
embedded-svc = "*"
esp-idf-svc = "0.52"
