[package]
name = "hash40"
version = "1.0.0"
edition = "2021"
publish = false

[dependencies]
bimap = "=0.6.3"
byteorder = "=1.5.0"
binrw = "=0.15.2"
serde = "=1.0.229"
diff-struct = "*"
lazy_static = "=1.5.1"

[dev-dependencies]
crc = "=3.4.0"
