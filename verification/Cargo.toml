[package]
name = "rustupolis_server"
version = "0.1.0"
edition = "2021"
publish = false

[dependencies]
rustupolis = "*"
futures = "0.3"
aes-gcm = "0.9"
aes-gcm-siv = "0.10"
mio = { version = "0.8", features = ["os-poll", "net"] }
crossbeam = "0.8"
log = "0.4"
