[package]
name = "ggoled"
version = "0.1.0"
edition = "2021"
publish = false

[dependencies]
anyhow = "=1.0.104"
bit-vec = "=0.10.1"
clap = { version = "=4.6.7", features = ["derive"] }
hidapi = { version = "=2.6.7", default-features = false, features = ["linux-native-basic-udev"] }
image = { version = "=0.25.10", default-features = false, features = ["png", "gif"] }
rusttype = "=0.9.3"
spin_sleep = "=1.3.3"
