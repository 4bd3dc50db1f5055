[package]
name = "st7735_driver"
version = "0.1.0"
edition = "2021"
publish = false

[dependencies]
defmt = "=0.3.101"
defmt-rtt = "=0.4.2"
panic-probe = { version = "=0.3.2", features = ["print-defmt"] }
embedded-hal = "=1.0.0"
embedded-hal-async = "=1.0.0"
embassy-executor = { version = "=0.7.0", features = ["arch-std", "executor-thread", "defmt"] }
embassy-time = { version = "=0.4.0", features = ["defmt", "tick-hz-32_768"] }
embassy-stm32 = { version = "=0.2.0", features = ["defmt", "stm32f103c8", "unstable-pac", "time-driver-any"] }
