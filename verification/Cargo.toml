[package]
name = "voxtype"
version = "0.1.0"
edition = "2021"
publish = false

[dependencies]
md5 = "*"
opus = "*"
serde = { version = "1", features = ["derive"] }
serde_json = "1"
toml = "0.8"
tungstenite = { version = "*", features = ["rustls-tls-webpki-roots"] }
zbus = "5"
zeroize = { version = "1", features = ["derive"] }
