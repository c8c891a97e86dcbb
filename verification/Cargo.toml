[package]
name = "echotrans"
version = "0.1.0"
edition = "2021"
publish = false

[dependencies]
base64 = "0.22"
serde = { version = "1", features = ["derive"] }
serde_json = "1"
reqwest = { version = "0.12", default-features = false, features = ["json", "stream", "rustls-tls"] }
futures-util = "0.3"
rdev = "0.5"
arboard = "3"
image = { version = "0.25", default-features = false, features = ["png"] }
