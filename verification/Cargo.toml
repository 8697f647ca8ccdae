[package]
name = "yarp"
version = "0.1.0"
edition = "2021"
publish = false

[dependencies]
blake3 = "=1.8.7"
pathdiff = "=0.2.3"
petgraph = "=0.8.3"
rand = "=0.9.5"
anyhow = "=1.0.104"
log = "=0.4.34"
env_logger = "=0.11.11"
serde = { version = "=1.0.229", features = ["derive"] }
serde_json = "=1.0.151"
walkdir = "=2.5.0"
