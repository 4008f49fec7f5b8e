[package]
name = "mercyshieldplus"
version = "0.1.0"
edition = "2021"
publish = false

[dependencies]
aes-gcm = "0.10"
base64 = "0.22"
hex = "0.4"
ml-dsa = "*"
rand = "0.8"
rand_core = { version = "0.6", features = ["getrandom"] }
serde_json = "1"
sha3 = "0.10"
zeroize = "1"
