[package]
name = "dht_storage"
version = "0.1.0"
edition = "2021"
publish = false

[dependencies]
ed25519-dalek = "=1.0.1"
hex = "=0.4.3"
rand = "=0.7.3"
libp2p = { version = "=0.57.1", features = ["kad", "mdns", "tcp", "dns", "noise", "yamux", "macros", "tokio", "ed25519"] }
tokio = { version = "1", features = ["macros", "rt-multi-thread", "io-std", "io-util"] }
futures = "=0.3.34"
clap = "=4.6.7"
env_logger = "=0.10.2"
