[package]
name = "batch_ledger"
version = "0.1.0"
edition = "2021"
publish = false

[dependencies]
alloy-sol-types = "=1.7.3"
stylus-sdk = "=0.10.10"
