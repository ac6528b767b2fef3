[package]
name = "ragec"
version = "0.1.0"
edition = "2021"
publish = false

[dependencies]
cranelift = "=0.122.0"
cranelift-module = "=0.122.0"
cranelift-object = "=0.122.0"
target-lexicon = "0.13"
pest = "=2.9.2"
pest_derive = "=2.9.2"
clap = { version = "=4.6.7", features = ["derive"] }
