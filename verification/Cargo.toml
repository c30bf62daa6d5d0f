[package]
name = "js_bridge"
version = "0.1.0"
edition = "2021"
publish = false

[dependencies]
bevy_reflect = "0.14"
boa_engine = "0.19"
