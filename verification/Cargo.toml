[package]
name = "ads_client"
version = "0.1.0"
edition = "2021"
publish = false

[dependencies]
ads-proto = "*"
anyhow = "1"
byteorder = "1"
