[package]
name = "eztopaz"
version = "0.1.0"
edition = "2021"
publish = false

[dependencies]
serde = { version = "1", features = ["derive"] }
serde_json = "1"
thiserror = "2"
libc = "0.2"
base64 = "0.22"
image = { version = "0.25", default-features = false, features = ["png"] }
arboard = "3"
