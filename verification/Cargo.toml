[package]
name = "place_directory"
version = "0.1.0"
edition = "2021"
publish = false

[dependencies]
chrono = "*"
pwhash = "*"
regex = "*"
uuid = { version = "*", features = ["v4"] }
