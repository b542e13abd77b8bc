[package]
name = "easynet"
version = "0.1.0"
edition = "2021"
publish = false

[dependencies]
etherparse = "*"
hickory-proto = "*"
ipnetwork = "*"
maxminddb = "*"
serde_yaml = "*"
serde = { version = "1", features = ["derive"] }
anyhow = "1"
log = "0.4"
env_logger = "*"
tokio = { version = "1", features = ["full"] }
tun2 = { version = "*", features = ["async"] }
futures = "0.3"
tokio-util = { version = "0.7", features = ["codec", "net"] }
socket2 = "*"
native-tls = "*"
tokio-native-tls = "*"
tokio-tungstenite = { version = "*", features = ["native-tls"] }
url = "2"
prost = "*"
nanoid = "*"
lazy_static = "1"
smoltcp = "*"
tokio-smoltcp = "*"
