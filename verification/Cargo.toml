[package]
name = "rust-prec"
version = "0.1.0"
edition = "2021"
publish = false

[dependencies]
serde_json = "1"
tf-demo-parser = "*"
tokio = { version = "1", features = ["rt-multi-thread", "macros", "net", "time"] }
rcon = { version = "0.6", features = ["rt-tokio"] }
evdev = "0.12"
image = { version = "*", default-features = false, features = ["png", "tga"] }
steamlocate = "2"
keyvalues-parser = "*"
steamid-ng = "*"
log = "0.4"
env_logger = "*"
thiserror = "1"
