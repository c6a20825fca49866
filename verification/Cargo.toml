[package]
name = "vpn_status_lib"
version = "0.1.0"
edition = "2021"
publish = false

[dependencies]
colored = "=3.1.1"
clap = { version = "=4.6.7", features = ["derive"] }
confy = "=2.0.0"
serde = { version = "=1.0.229", features = ["derive"] }
netdev = "=0.46.3"
public-ip-address = { version = "=0.3.5", features = ["blocking"] }
