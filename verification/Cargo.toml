[package]
name = "safe_vault"
version = "0.1.0"
edition = "2021"
publish = false

[dependencies]
base64 = "0.10"
bincode = "1"
bytes = "0.5"
crossbeam-channel = "0.3"
hex_fmt = "0.3"
log = "0.4"
pickledb = "0.4"
rand = "0.7"
rand_chacha = "0.2"
routing = "*"
safe-nd = "*"
serde = { version = "1", features = ["derive"] }
unwrap = "1"
xor_name = "*"
