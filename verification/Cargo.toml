[package]
name = "guest_rust_macro"
version = "0.1.0"
edition = "2021"
publish = false

[dependencies]
proc-macro2 = "=1.0.107"
syn = "=1.0.109"
wit-bindgen-core = "=0.3.0"
wit-bindgen-gen-guest-rust = "=0.3.0"
