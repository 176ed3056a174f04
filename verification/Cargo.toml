[package]
name = "draytek_vpn"
version = "0.1.0"
edition = "2021"
publish = false

[dependencies]
bytes = "1"
sha1 = "0.10"
md4 = "0.10"
des = "0.8"
digest = "0.10"
rand = "0.9"
regex = "1"
base64 = "0.22"
tokio = { version = "1", features = ["full"] }
openssl = "0.10"
tokio-openssl = "0.6"
tun-rs = { version = "2", features = ["async"] }
anyhow = "1"
libc = "0.2"
tracing = "0.1"
tracing-subscriber = "0.3"
serde = { version = "1", features = ["derive"] }
toml = "0.8"
dirs = "6"
keyring = { version = "3", features = ["linux-native"] }
