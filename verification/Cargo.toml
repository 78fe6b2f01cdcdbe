[package]
name = "jukebox"
version = "0.1.0"
edition = "2021"
publish = false

[dependencies]
ringbuffer = "=0.15.0"
itertools = "=0.13.0"
serialport = { version = "=4.10.1", default-features = false }
anyhow = "1"
log = "0.4"
env_logger = "0.11"
serde = { version = "1", features = ["derive"] }
serde_json = "1"
dirs = "5"
ctrlc = "3"
usb-device = "=0.3.2"
usbd-serial = "=0.2.2"
embedded-hal = { version = "=0.2.7", features = ["unproven"] }
