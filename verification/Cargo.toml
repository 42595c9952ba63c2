[package]
name = "solcatears"
version = "0.1.0"
edition = "2021"
publish = false

[dependencies]
embassy-executor = "*"
embassy-time = { version = "=0.5.1", features = ["tick-hz-1_000_000"] }
embedded-io-async = "=0.7.0"
esp-backtrace = { version = "*", features = ["esp32s3", "panic-handler", "println"] }
esp-bootloader-esp-idf = { version = "*", features = ["esp32s3"] }
esp-hal = { version = "*", features = ["esp32s3", "unstable"] }
esp-rtos = { version = "*", features = ["embassy", "esp32s3"] }
heapless = "=0.8.0"
libloading = "=0.8.9"
rusb = "=0.9.4"
