[package]
name = "meta_service"
version = "0.1.0"
edition = "2021"
publish = false

[dependencies]
anyerror = "=0.1.13"
serde = { version = "=1.0.229", features = ["derive"] }
serde_json = "=1.0.154"
thiserror = "=1.0.69"
openraft = "=0.9.25"
tonic = "=0.14.6"
num = "0.4"
