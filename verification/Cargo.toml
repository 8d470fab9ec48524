[package]
name = "authenticator"
version = "0.1.0"
edition = "2021"
publish = false

[dependencies]
pasetors = "=0.8.1"
hex = "=0.4.3"
chrono = "=0.4.45"
uuid = { version = "=1.27.0", features = ["v4"] }
getrandom = "*"
