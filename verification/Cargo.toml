[package]
name = "rustyhack"
version = "0.1.0"
edition = "2021"
publish = false

[dependencies]
ndarray = { version = "0.16", features = ["serde"] }
rand = "0.9"
uuid = { version = "1", features = ["v4", "serde"] }
rayon = "1"
serde = { version = "1", features = ["derive"] }
serde_json = "1"
bincode = { version = "2", features = ["serde"] }
crossbeam-channel = "0.5"
laminar = "0.5"
legion = "0.4"
crossterm = { version = "*", features = ["serde"] }
message-io = "*"
log = "0.4"
simplelog = "0.12"
strum_macros = "*"
