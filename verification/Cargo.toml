[package]
name = "esp32-rex"
version = "0.1.0"
edition = "2021"
publish = false

[dependencies]
heapless = "0.8"
embedded-graphics = "0.8"
ssd1306 = "0.9"
log = "0.4"
esp-hal = { version = "0.22", features = ["esp32"] }
esp-hal-embassy = { version = "0.5", features = ["esp32"] }
esp-backtrace = { version = "0.14", features = ["esp32", "exception-handler", "panic-handler", "println"] }
esp-println = { version = "0.12", features = ["esp32", "log"] }
embassy-executor = "0.6"
embassy-time = "0.3"
