[package]
name = "btrfs_core"
version = "0.1.0"
edition = "2021"
publish = false

[dependencies]
crc32c = "*"
flate2 = "*"
lz4 = "*"
zstd = "*"
memmap2 = "*"
uuid = "*"
