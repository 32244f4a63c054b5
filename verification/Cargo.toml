[package]
name = "kroma"
version = "0.1.0"
edition = "2021"
publish = false

[dependencies]
serde = { version = "1", features = ["derive"] }
serde_json = "1"
flate2 = "1"
thiserror = "2"
image = { version = "0.25", default-features = false, features = ["jpeg", "png"] }
