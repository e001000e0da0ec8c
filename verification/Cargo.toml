[package]
name = "parcel_cjs"
version = "0.1.0"
edition = "2021"
publish = false

[dependencies]
esparse = "=0.0.4"
