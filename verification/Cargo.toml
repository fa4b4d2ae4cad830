[package]
name = "podblob"
version = "0.1.0"
edition = "2021"
publish = false

[dependencies]
plonky2 = "*"
alloy = { version = "*", default-features = false, features = ["consensus", "eips", "kzg"] }
c-kzg = "*"
anyhow = "*"
