[package]
name = "clawdb"
version = "0.1.0"
edition = "2021"
publish = false

[dependencies]
async-trait = "0.1"
bincode = "1"
byteorder = "1"
chrono = "0.4"
env_logger = "*"
ndarray = "*"
rand = "0.8"
rayon = "1"
rocksdb = "*"
serde = { version = "1", features = ["derive"] }
serde_json = "1"
simsimd = "*"
thiserror = "1"
tokio = { version = "1", features = ["rt-multi-thread", "macros"] }

[dev-dependencies]
tempfile = "3"
