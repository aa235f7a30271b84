[package]
name = "aggregate_codec"
version = "0.1.0"
edition = "2021"
publish = false

[dependencies]
approx = "0.5"
bytemuck = "1"
serde = "1"
