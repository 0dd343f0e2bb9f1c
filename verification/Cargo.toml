[package]
name = "mlxcel_xla"
version = "0.1.0"
edition = "2021"
publish = false

[dependencies]
serde_json = "1"
sha2 = "0.10"
safetensors = "0.6"
memmap2 = "0.9"
