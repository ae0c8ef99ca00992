[package]
name = "neuron_net"
version = "0.1.0"
edition = "2021"
publish = false

[dependencies]
uuid = { version = "1", features = ["v4"] }
ndarray = "0.15"
rand = "0.8"
serde = { version = "1", features = ["derive"] }
serde_json = "1"
