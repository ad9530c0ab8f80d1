[package]
name = "floodsub"
version = "0.1.0"
edition = "2021"
publish = false

[dependencies]
bytes = "1"
hex_fmt = "0.3"
libp2p = { version = "0.57", default-features = false }

[dev-dependencies]
rand = "0.8"
