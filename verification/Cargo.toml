[package]
name = "line_follower"
version = "0.1.0"
edition = "2021"
publish = false

[dependencies]
clap = { version = "*", features = ["derive"] }
config = "*"
ctrlc = "*"
ev3dev-lang-rust = "*"
rumqttc = "*"
serde = "*"
serde_derive = "*"
