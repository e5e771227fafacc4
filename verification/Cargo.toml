[package]
name = "honest_did"
version = "0.1.0"
edition = "2021"
publish = false

[dependencies]
argmin = "=0.11.0"
argmin-math = { version = "=0.5.1", features = ["vec"] }
clarabel = "=0.11.1"
dyn-stack = "=0.13.2"
faer = "=0.24.4"
once_map = "=0.4.24"
rand = "=0.10.3"
rayon = "=1.12.0"
serde = { version = "=1.0.229", features = ["derive"] }
serde_json = "=1.0.154"
statrs = "=0.19.1"
