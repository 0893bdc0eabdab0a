[package]
name = "tacacs_plus"
version = "0.1.0"
edition = "2021"
publish = false

[dependencies]
md-5 = "*"
rand = "*"
uuid = { version = "*", features = ["v4"] }
futures = "*"
thiserror = "*"
