[package]
name = "egemma"
version = "0.2.0"
edition = "2021"
publish = false

[dependencies]
tokenizers = "*"
ort = { version = "2.0.0-rc.12", default-features = false, features = ["std", "load-dynamic"] }
serde = { version = "1", features = ["derive"] }
thiserror = "2"
mlxrs = "*"
