[package]
name = "rs_cap"
version = "0.1.0"
edition = "2021"
publish = false

[dependencies]
chrono = "*"
geo = "*"
quick-xml = "*"
serde = { version = "*", features = ["derive"] }
uuid = { version = "*", features = ["v4"] }
