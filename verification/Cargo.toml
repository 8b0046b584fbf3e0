[package]
name = "pixeldither"
version = "0.1.0"
edition = "2021"
publish = false

[dependencies]
base64 = "*"
image = "*"
rand = "*"
rayon = "*"
serde = { version = "*", features = ["derive"] }
thiserror = "*"
toml = "*"
