[package]
name = "qd2"
version = "0.1.0"
edition = "2021"
publish = false

[dependencies]
anyhow = "1"
async-trait = "0.1"
clap = { version = "4", features = ["derive"] }
gtk4 = { version = "0.9", features = ["v4_14"] }
pixman-sys = "*"
qemu-display = "*"
serde_bytes = "0.11"
tokio = { version = "1", features = ["full"] }
zbus = { version = "5", default-features = false, features = ["tokio"] }
