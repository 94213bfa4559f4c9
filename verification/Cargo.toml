[package]
name = "rameau"
version = "0.1.0"
edition = "2021"
publish = false

[dependencies]
riff = "=2.0.0"
lewton = "=0.10.2"
vorbis_rs = "=0.5.6"
serde = { version = "=1.0.229", features = ["derive"] }
serde_json = "=1.0.154"
thiserror = "=2.0.21"
kira = { version = "=0.10.8", default-features = false, features = ["ogg"] }
