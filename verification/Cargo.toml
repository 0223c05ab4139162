[package]
name = "minirt"
version = "0.1.0"
edition = "2021"
publish = false

[dependencies]
libc = "*"
mio = { version = "*", features = ["net", "os-poll"] }
slab = "*"
tokio = { version = "*", default-features = false }
