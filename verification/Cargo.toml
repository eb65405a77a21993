[package]
name = "c3_led_stuff"
version = "0.1.0"
edition = "2021"
publish = false

[dependencies]
heapless = "0.5"
oorandom = "11"
