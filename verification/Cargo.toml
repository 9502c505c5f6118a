[package]
name = "matrix_protocol"
version = "0.1.0"
edition = "2021"
publish = false

[dependencies]
smart-leds = "0.4"
serde = { version = "1", features = ["derive"] }
bytemuck = { version = "1", features = ["derive"] }
tokio = { version = "1", features = ["net", "io-util", "sync", "rt-multi-thread", "macros"] }
log = "0.4"
