[package]
name = "razermapper"
version = "0.1.0"
edition = "2021"
publish = false

[dependencies]
serde = { version = "1", features = ["derive"] }
bincode = "1.3"
serde_yaml = "0.9"
tokio = { version = "1", features = ["full"] }
thiserror = "1"
tracing = "0.1"
tracing-subscriber = "0.3"
libc = "0.2"
nix = { version = "0.27", features = ["user"] }
evdev = "0.12"
async-trait = "0.1"
iced = { version = "0.12", default-features = false, features = ["tokio"] }
