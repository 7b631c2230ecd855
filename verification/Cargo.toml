[package]
name = "hot_lib_reloader"
version = "0.1.0"
edition = "2021"
publish = false

[dependencies]
crc32fast = "1"
libloading = "0.8"
notify = "4"
thiserror = "1"
log = "0.4"
