[package]
name = "tachyon"
version = "0.1.0"
edition = "2021"
publish = false

[dependencies]
group = "=0.14.0"
pasta_curves = { version = "=0.6.1", features = ["alloc"] }
ragu_core = "=0.0.0"
ragu_pcd = "=0.0.0"
ragu_primitives = "=0.0.0"
