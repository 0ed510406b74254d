[package]
name = "ground"
version = "0.1.0"
edition = "2021"
publish = false

[dependencies]
futures = "0.3"
futures-core = "0.3"
futures-io = "0.3"
libc = "0.2"
socket2 = { version = "0.4", features = ["all"] }
