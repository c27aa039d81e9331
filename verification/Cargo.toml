[package]
name = "localdb"
version = "0.1.0"
edition = "2021"
publish = false

[dependencies]
chrono = "=0.4.45"
crc = "=1.8.1"
rmp-serde = "=1.3.1"
serde = { version = "=1.0.229", features = ["derive"] }
log = "=0.4.34"
log4rs = "=1.4.0"
rand = "=0.7.3"
rumqtt = "=0.31.0"
ctrlc = "=3.5.2"
toml = "=0.5.11"
