[package]
name = "equilibrium_ffi"
version = "0.1.0"
edition = "2021"
publish = false

[dependencies]
which = "*"
proc-macro2 = "1"
quote = "1"
syn = { version = "2", features = ["full"] }
