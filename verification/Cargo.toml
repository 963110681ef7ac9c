[package]
name = "wrld"
version = "0.4.0"
edition = "2021"
publish = false

[dependencies]
regex = "1"
syn = { version = "1", features = ["full"] }
quote = "1"
proc-macro2 = "1"
wgpu = { version = "*", default-features = false }

[dev-dependencies]
bytemuck = "1"
