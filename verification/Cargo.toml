[package]
name = "rusty_mancala"
version = "0.1.0"
edition = "2021"
publish = false

[dependencies]
serde = { version = "1", features = ["derive"] }
bincode = "1"
clap = "2"
log = "0.4"
simple_logger = "1"
