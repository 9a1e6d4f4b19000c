[package]
name = "watchdog"
version = "0.1.0"
edition = "2021"
publish = false

[dependencies]
cortex-m = "0.7"
embedded-hal = { version = "0.2", features = ["unproven"] }
stm32wl = { version = "0.15", default-features = false, features = ["stm32wle5"] }
