[package]
name = "cnn_pipeline"
version = "0.1.0"
edition = "2021"

[dependencies]
rustacuda = "0.1"
