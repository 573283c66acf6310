[package]
name = "user_auth"
version = "0.1.0"
edition = "2021"
publish = false

[dependencies]
serde = { version = "1", features = ["derive"] }
typetag = "0.2"
dyn-clone = "1"
