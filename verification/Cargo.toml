[package]
name = "propane_monitor_embassy"
version = "0.1.0"
edition = "2021"
publish = false

[dependencies]
cortex-m = { version = "=0.7.10", features = ["critical-section-single-core"] }
defmt = "=1.2.0"
embassy-executor = { version = "=0.10.0", features = ["platform-std", "executor-thread"] }
embassy-nrf = { version = "=0.11.0", features = ["nrf9160-ns", "time-driver-rtc1", "time", "gpiote", "unstable-pac"] }
embassy-time = "=0.5.1"
futures = { version = "=0.3.34", default-features = false }
nrf-modem = "=0.3.5"
