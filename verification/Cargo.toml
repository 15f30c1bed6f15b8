[package]
name = "altair-ebpf"
version = "0.1.0"
edition = "2021"
publish = false

[dependencies]
anyhow = "1"
aya = "0.13"
aya-log = "0.2"
bytemuck = "1"
tokio = { version = "1", features = ["macros", "rt", "rt-multi-thread", "signal", "time"] }
