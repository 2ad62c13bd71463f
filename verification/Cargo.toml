[package]
name = "ed_on_cp6_782"
version = "0.1.0"
edition = "2021"
publish = false

[dependencies]
ark-ff = "0.3"
ark-ec = "0.3"
ark-cp6-782 = "0.3"
ark-std = "0.3"

[dev-dependencies]
num-bigint = "0.4"
num-traits = "0.2"
