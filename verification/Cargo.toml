[package]
name = "lib_poki_launcher"
version = "0.1.0"
edition = "2021"
publish = false

[dependencies]
freedesktop_entry_parser = "=1.3.0"
fuzzy-matcher = "=0.3.7"
uuid = { version = "=0.8.2", features = ["v4"] }
serde = { version = "=1.0.229", features = ["derive"] }
rmp-serde = "1.3"
file-locker = "=1.1.4"
directories-next = "=2.0.0"
lazy_static = "=1.5.1"
log = "=0.4.34"
nix = "=0.26.4"
notify = "=4.0.18"
crossbeam-channel = "=0.5.17"
shellexpand = "=2.1.2"
thiserror = "=1.0.69"
walkdir = "=2.5.0"
config = "=0.10.1"
