[package]
name = "api_gen_macro"
version = "0.1.0"
edition = "2021"
publish = false

[dependencies]
darling = "0.20"
proc-macro2 = "1"
quote = "1"
serde = { version = "1", features = ["derive"] }
serde_json = "1"
syn = { version = "2", features = ["full"] }
thiserror = "1"
