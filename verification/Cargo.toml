[package]
name = "foc_rust"
version = "0.1.0"
edition = "2021"
publish = false

[dependencies]
cortex-m = "0.7"
critical-section = "1"
defmt = "1"
defmt-rtt = "1"
embassy-executor = "*"
embassy-futures = "*"
embassy-stm32 = { version = "0.6", features = ["stm32g431cb", "unstable-pac"] }
embassy-sync = "*"
embassy-time = "*"
embedded-can = "0.4"
embedded-cli = "0.2"
embedded-io = "0.7"
embedded-io-async = "*"
