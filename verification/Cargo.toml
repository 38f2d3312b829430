[package]
name = "celsius"
version = "0.1.0"
edition = "2021"
publish = false

[dependencies]
esp-hal = { version = "0.23", features = ["esp32s3"] }
esp-println = { version = "0.13", features = ["esp32s3"] }
esp-backtrace = { version = "0.15", features = ["esp32s3", "panic-handler", "println"] }
