[package]
name = "mips_witness"
version = "0.1.0"
edition = "2021"
publish = false

[dependencies]
ark-bn254 = { version = "0.4", default-features = false, features = ["scalar_field"] }
ark-ff = "0.4.2"
log = "0.4"
