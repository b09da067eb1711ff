[package]
name = "av-scenechange"
version = "0.1.0"
edition = "2021"
publish = false

[dependencies]
anyhow = "1"
av-decoders = "*"
num-rational = "0.4"
serde = { version = "1", features = ["derive"] }
smallvec = "1"
v_frame = "*"
