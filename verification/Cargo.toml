[package]
name = "daqlink"
version = "0.1.0"
edition = "2021"
publish = false

[dependencies]
async-ringbuf = "=0.1.3"
ringbuf = "=0.3.3"
futures = { version = "=0.3.34", features = ["thread-pool"] }
async-std = "=1.13.2"
ux = "=0.1.6"
log = "=0.4.34"
env_logger = "=0.10.2"
freertos-rust = "=0.2.0"
