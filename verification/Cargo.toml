[package]
name = "pocketstation_relay"
version = "0.1.4"
edition = "2021"
publish = false

[dependencies]
pocketstation = { version = "=1.1.16", default-features = false, features = ["conformance-fixtures"] }
serde = { version = "=1.0.229", features = ["derive"] }
serde_json = "=1.0.154"
str0m = "=0.24.1"
thiserror = "=2.0.21"
tungstenite = { version = "=0.30.0", features = ["native-tls"] }
url = "=2.5.8"
