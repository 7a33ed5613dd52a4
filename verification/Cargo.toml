[package]
name = "safecheckpoint"
version = "0.1.3"
edition = "2021"
publish = false

[dependencies]
blake3 = "1"
byteorder = "1"
crc32fast = "1"
fs4 = "*"
memmap2 = "0.9"
rayon = "1"
serde = { version = "1", features = ["derive"] }
serde_json = "1"
tempfile = "3"
tracing = "0.1"
