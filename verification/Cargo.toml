[package]
name = "stream_bench"
version = "0.1.0"
edition = "2021"
publish = false

[dependencies]
argparse = "0.2"
kcp = "0.4"
nix = "0.20"
pbr = "1"
serde = { version = "1", features = ["derive"] }
smoltcp = "0.7"
socket2 = "0.4"
tracing = "0.1"
