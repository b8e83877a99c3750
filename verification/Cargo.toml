[package]
name = "mcap_video"
version = "0.1.0"
edition = "2021"
publish = false

[dependencies]
anyhow = "=1.0.104"
camino = "=1.2.6"
image = "=0.24.9"
mcap = "=0.26.0"
memmap = "=0.7.0"
openh264 = "=0.4.4"
protobuf = "=3.7.2"
