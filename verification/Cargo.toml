[package]
name = "arinc429_sniffer"
version = "0.1.0"
edition = "2021"
publish = false

[dependencies]
byteorder = "1"
thiserror = "1"
anyhow = "1"
clap = { version = "4", features = ["derive"] }
colored = "2"
rand = "0.8"
libc = "0.2"

[dev-dependencies]
tempfile = "3"
