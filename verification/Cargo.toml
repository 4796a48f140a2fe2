[package]
name = "curlmux"
version = "0.1.0"
edition = "2021"
publish = false

[dependencies]
libc = "0.2"
libloading = "0.8"
once_cell = "1"
tokio = { version = "1", features = ["rt", "time", "macros"] }
uuid = { version = "1", features = ["v4"] }
