[package]
name = "rtos"
version = "0.1.0"
edition = "2021"
publish = false

[dependencies]
cortex-m = "*"
cortex-m-rt = "*"
embedded-hal = "0.2"
f3 = "*"
