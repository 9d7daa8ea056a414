[package]
name = "array_shape"
version = "0.1.0"
edition = "2021"
publish = false

[dependencies]
tinyvec = { version = "*", features = ["alloc"] }
serde = { version = "*", features = ["derive"] }
