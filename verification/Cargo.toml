[package]
name = "backup_fam"
version = "0.1.0"
edition = "2021"
publish = false

[dependencies]
clap = "2.33"
fuse_mt = "0.5"
libc = "0.2"
time = "0.1"
