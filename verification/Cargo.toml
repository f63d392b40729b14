[package]
name = "zmq_bench"
version = "0.1.0"
edition = "2021"
publish = false

[dependencies]
clap = { version = "4", features = ["derive"] }
csv = "1"
hdrhistogram = "7"
libc = "0.2"
num_cpus = "1"
serde = { version = "1", features = ["derive"] }
tokio = { version = "1", features = ["full"] }
zmq = "0.10"
