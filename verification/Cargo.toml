[package]
name = "coffee_chat"
version = "0.1.0"
edition = "2021"
publish = false

[dependencies]
uuid = { version = "=1.29.0", features = ["v4", "serde"] }
tokio = { version = "=1.54.1", features = ["full"] }
cpal = "=0.18.2"
ringbuf = "=0.5.3"
itertools = "=0.15.0"
cursive = { version = "*", default-features = false, features = ["crossterm-backend"] }
sfml = "*"

[dev-dependencies]
bincode = "=1.3.3"
serde = "=1.0.229"
