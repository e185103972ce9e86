[package]
name = "iceberg_rust_native"
version = "0.1.0"
edition = "2021"
publish = false

[dependencies]
roaring = "=0.12.0"
crc32fast = "=1.5.4"
lz4_flex = "=0.14.0"
rustc-hash = "=2.1.3"
serde = { version = "=1.0.229", features = ["derive"] }
serde_json = "=1.0.154"
uuid = { version = "=1.29.0", features = ["v4", "serde"] }
apache-avro = "=0.22.0"
thiserror = "=2.0.21"
flate2 = "=1.1.10"
rayon = "=1.12.0"
crossbeam-channel = "=0.5.17"
smallvec = { version = "=1.16.4", features = ["serde"] }
futures = "=0.3.34"
arrow = { version = "=60.1.0", default-features = false }
num_cpus = "=1.17.0"
jni = "0.21"
