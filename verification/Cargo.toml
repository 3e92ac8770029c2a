[package]
name = "player_log"
version = "0.1.0"
edition = "2021"
publish = false

[dependencies]
anyhow = "1"
bincode = "1"
byteorder = "1"
bytesize = "1"
flate2 = "1"
humantime = "2"
postcard = { version = "1", default-features = false, features = ["alloc"] }
rand = "0.8"
rayon = "1"
serde = { version = "1", features = ["derive"] }
serde_json = "1"
uuid = { version = "1", features = ["v4", "serde"] }
