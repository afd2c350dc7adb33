[package]
name = "pixel_pipeline"
version = "0.1.0"
edition = "2021"
publish = false

[dependencies]
cortex-m = "0.7"
cortex-m-rt = "0.7"
panic-halt = "0.2"
stm32f4 = { version = "0.15", features = ["stm32f401", "rt"] }
