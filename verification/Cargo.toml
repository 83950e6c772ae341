[package]
name = "bevy_garage"
version = "0.1.0"
edition = "2021"
publish = false

[dependencies]
itertools = "=0.15.0"
bevy = { version = "=0.14.2", default-features = false }
renet = "=2.0.1"
nalgebra = "=0.33.3"
serde = { version = "=1.0.229", features = ["derive"] }
serde_json = "=1.0.154"
bincode = "=1.3.3"
fastrand = "=2.5.0"
