[package]
name = "microkern"
version = "0.1.0"
edition = "2021"
publish = false

[dependencies]
heapless = "0.8"
ringbuf = "0.4"
numtoa = "0.2"
