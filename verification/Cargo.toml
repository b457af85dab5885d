[package]
name = "quantize_strategy"
version = "0.1.0"
edition = "2021"
publish = false

[dependencies]
anyhow = "1"
candle-core = "*"
half = "2"
regex = "1"
safetensors = "*"
