[package]
name = "rusty_passgen"
version = "0.1.0"
edition = "2021"
publish = false

[dependencies]
rand = "0.9"
clap = { version = "4", features = ["derive"] }
colored = "2"
figlet-rs = "0.1"
