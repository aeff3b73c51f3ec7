[package]
name = "agent_dao"
version = "0.1.0"
edition = "2021"
publish = false

[dependencies]
dcap-qvl = "*"
hex = "*"
sha2 = "*"
serde_json = "*"
serde = { version = "*", features = ["derive"] }
