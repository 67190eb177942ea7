[package]
name = "gif_stream"
version = "0.1.0"
edition = "2021"
publish = false

[dependencies]
color_quant = "*"
weezl = "*"
tokio = { version = "*", features = ["time", "rt"] }
futures = "*"
async-stream = "*"
