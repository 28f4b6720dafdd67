[package]
name = "mill_io"
version = "0.1.0"
edition = "2021"
publish = false

[dependencies]
mio = { version = "1.1", features = ["os-poll", "net"] }
lockfree = "0.5"
