[package]
name = "wp_api"
version = "0.1.0"
edition = "2021"
publish = false

[dependencies]
url = "*"
serde = "*"
serde_json = "*"
thiserror = "*"
reqwest = { version = "*", default-features = false, features = ["blocking"] }
