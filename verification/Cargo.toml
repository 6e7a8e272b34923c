[package]
name = "cealn"
version = "0.1.0"
edition = "2021"
publish = false

[dependencies]
anyhow = "=1.0.104"
async-trait = "=0.1.92"
byteorder = "=1.5.0"
dashmap = "=5.5.3"
fs3 = "=0.5.0"
futures = "=0.3.34"
ignore = "=0.4.34"
libc = "=0.2.191"
num_cpus = "=1.17.0"
parking_lot = "=0.12.5"
pathdiff = "=0.2.3"
proc-mounts = "=0.3.0"
ring = "=0.17.14"
serde = { version = "=1.0.229", features = ["derive"] }
serde_json = "=1.0.154"
slab = "=0.4.12"
tar = "=0.4.46"
tempfile = "=3.27.0"
thiserror = "=1.0.69"
tokio = { version = "=1.54.1", features = ["rt-multi-thread", "time", "sync"] }
toml = "=0.5.11"
